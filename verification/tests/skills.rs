use phi_core::context::skills::frontmatter::{parse_frontmatter, unquote};
use phi_core::context::skills::scalars::{xml_escape, yaml_escape_scalar};
use phi_core::context::skills::{DirListing, SkillEntry, SkillError, SkillPromptFormat, SkillSet};

fn skill_md(name: &str, description: &str) -> String {
    format!("---\nname: {}\ndescription: {}\n---\n\n# {}\n\nInstructions here.\n", name, description, name)
}

fn entry(dir: &str, name: &str, content: &str) -> SkillEntry {
    SkillEntry {
        dir_name: name.to_string(),
        skill_md: format!("{}/{}/SKILL.md", dir, name),
        base_dir: format!("{}/{}", dir, name),
        content: Ok(content.to_string()),
    }
}

fn skill(dir: &str, name: &str, description: &str) -> SkillEntry {
    entry(dir, name, &skill_md(name, description))
}

fn load_one(entries: Vec<SkillEntry>) -> Result<SkillSet, SkillError> {
    SkillSet::load(&[DirListing::Entries(entries)])
}

#[test]
fn load_skills_from_directory() {
    let skills = load_one(vec![
        skill("/tmp/a", "weather", "Get current weather and forecasts."),
        skill("/tmp/a", "git", "Git operations: commit, branch, merge."),
    ])
    .unwrap();
    assert_eq!(skills.len(), 2);
    assert_eq!(skills.skills()[0].name, "git");
    assert_eq!(skills.skills()[1].name, "weather");
    assert_eq!(skills.skills()[0].source, "dir:0");
    assert_eq!(skills.skills()[0].file_path, "/tmp/a/git/SKILL.md");
}

#[test]
fn format_for_prompt_xml() {
    let skills = load_one(vec![skill("/tmp/a", "weather", "Get weather.")]).unwrap();
    let prompt = skills.format_for_prompt();
    assert!(prompt.contains("<available_skills>"));
    assert!(prompt.contains("<name>weather</name>"));
    assert!(prompt.contains("<description>Get weather.</description>"));
    assert!(prompt.contains("SKILL.md</location>"));
    assert!(prompt.contains("</available_skills>"));
}

#[test]
fn empty_when_no_skills() {
    let skills = load_one(vec![]).unwrap();
    assert!(skills.is_empty());
    assert_eq!(skills.format_for_prompt(), "");
}

#[test]
fn later_dirs_override_earlier() {
    let skills = SkillSet::load(&[
        DirListing::Entries(vec![skill("/d1", "weather", "Old description.")]),
        DirListing::Entries(vec![skill("/d2", "weather", "New description.")]),
    ])
    .unwrap();
    assert_eq!(skills.len(), 1);
    assert_eq!(skills.skills()[0].description, "New description.");
    assert_eq!(skills.skills()[0].source, "dir:1");
}

#[test]
fn skips_nonexistent_dirs() {
    let skills = SkillSet::load(&[DirListing::Missing]).unwrap();
    assert!(skills.is_empty());
}

#[test]
fn skips_dirs_without_skill_md() {
    let skills = load_one(vec![]).unwrap();
    assert!(skills.is_empty());
}

#[test]
fn unreadable_dir_is_an_io_error() {
    let r = SkillSet::load(&[DirListing::Unreadable { path: "/x".into(), detail: "denied".into() }]);
    assert!(matches!(r, Err(SkillError::Io { .. })));
}

#[test]
fn unreadable_skill_md_is_an_io_error() {
    let mut e = skill("/d", "w", "x");
    e.content = Err("denied".into());
    let r = load_one(vec![e]);
    match r {
        Err(SkillError::Io { path, detail }) => {
            assert_eq!(path, "/d/w/SKILL.md");
            assert_eq!(detail, "denied");
        },
        _ => panic!("expected an io error"),
    }
}

#[test]
fn error_on_missing_frontmatter() {
    let result = load_one(vec![entry("/t", "bad-skill", "# No frontmatter\n")]);
    assert!(result.is_err());
    assert!(matches!(result, Err(SkillError::InvalidFrontmatter { .. })));
}

#[test]
fn error_on_missing_closing_delimiter() {
    let result = load_one(vec![entry("/t", "open", "---\nname: open\ndescription: x\n")]);
    match result {
        Err(SkillError::InvalidFrontmatter { detail, .. }) => assert_eq!(detail, "missing closing ---"),
        _ => panic!("expected invalid frontmatter"),
    }
}

#[test]
fn error_on_missing_name() {
    let result = load_one(vec![entry("/t", "no-name", "---\ndescription: Has desc but no name.\n---\n")]);
    assert!(result.is_err());
    assert!(matches!(result, Err(SkillError::MissingField { field: "name", .. })));
}

#[test]
fn error_on_missing_description() {
    let result = load_one(vec![entry("/t", "no-desc", "---\nname: no-desc\n---\n")]);
    assert!(result.is_err());
    assert!(matches!(result, Err(SkillError::MissingField { field: "description", .. })));
}

#[test]
fn quoted_frontmatter_values() {
    let skills = load_one(vec![entry(
        "/t",
        "quoted",
        "---\nname: \"quoted\"\ndescription: 'A quoted description.'\n---\n",
    )])
    .unwrap();
    assert_eq!(skills.skills()[0].name, "quoted");
    assert_eq!(skills.skills()[0].description, "A quoted description.");
}

#[test]
fn parse_frontmatter_returns_name_and_description() {
    let (n, d) = parse_frontmatter("---\nname: a\ndescription: b c\n---\nbody", "p").ok().unwrap();
    assert_eq!(n, "a");
    assert_eq!(d, "b c");
}

#[test]
fn xml_escaping() {
    let skills = load_one(vec![entry(
        "/t",
        "escape-test",
        "---\nname: escape-test\ndescription: Uses <tags> & \"quotes\"\n---\n",
    )])
    .unwrap();
    let prompt = skills.format_for_prompt();
    assert!(prompt.contains("&lt;tags&gt;"));
    assert!(prompt.contains("&amp;"));
    assert!(prompt.contains("&quot;quotes&quot;"));
}

#[test]
fn xml_escape_exact() {
    assert_eq!(xml_escape("a<b>&\"c'"), "a&lt;b&gt;&amp;&quot;c&apos;");
    assert_eq!(xml_escape("plain"), "plain");
}

#[test]
fn kc04_golden_xml_byte_for_byte() {
    let skills = load_one(vec![skill("/tmp/s", "weather", "Get weather.")]).unwrap();
    let s = &skills.skills()[0];
    let expected = format!(
        "<available_skills>\n  <skill>\n    <name>{}</name>\n    <description>{}</description>\n    <location>{}</location>\n  </skill>\n</available_skills>",
        xml_escape(&s.name),
        xml_escape(&s.description),
        xml_escape(&s.file_path),
    );
    assert_eq!(skills.format_for_prompt(), expected);
    assert_eq!(skills.format_for_prompt_as(SkillPromptFormat::Xml), expected);
    assert!(!expected.ends_with('\n'));
}

#[test]
fn kc04_yaml_round_trips_through_serde_yaml() {
    let skills = load_one(vec![
        skill("/tmp/s", "weather", "Get current weather and forecasts."),
        skill("/tmp/s", "git", "Git operations: commit, branch, merge."),
    ])
    .unwrap();

    let yaml = skills.format_for_prompt_as(SkillPromptFormat::Yaml);
    let value: serde_yaml::Value = serde_yaml::from_str(&yaml).expect("renders valid YAML");
    let seq = value.get("available_skills").and_then(|v| v.as_sequence()).expect("available_skills sequence present");
    assert_eq!(seq.len(), 2);
    for (item, skill) in seq.iter().zip(skills.skills().iter()) {
        assert_eq!(item.get("name").unwrap().as_str().unwrap(), skill.name);
        assert_eq!(item.get("description").unwrap().as_str().unwrap(), skill.description);
        assert_eq!(item.get("location").unwrap().as_str().unwrap(), skill.file_path);
    }
    assert!(yaml.contains("Git operations: commit, branch, merge."));
}

#[test]
fn kc04_yaml_decision_boundary_colon_quotes_plain_stays_bare() {
    let skills = load_one(vec![skill("/tmp/s", "weather", "Weather: now with colons.")]).unwrap();
    let yaml = skills.format_for_prompt_as(SkillPromptFormat::Yaml);
    assert!(yaml.contains("- name: weather\n"));
    assert!(!yaml.contains("- name: \"weather\""));
    assert!(yaml.contains("description: \"Weather: now with colons.\""));

    let value: serde_yaml::Value = serde_yaml::from_str(&yaml).expect("valid YAML");
    let item = &value["available_skills"][0];
    assert_eq!(item["name"].as_str().unwrap(), "weather");
    assert_eq!(item["description"].as_str().unwrap(), "Weather: now with colons.");

    assert_eq!(yaml_escape_scalar("weather"), "weather");
    assert_eq!(yaml_escape_scalar("Weather: now with colons."), "\"Weather: now with colons.\"");
}

#[test]
fn kc04_yaml_reserved_words_and_numbers_preserve_string_type() {
    for raw in [
        "null", "Null", "NULL", "true", "True", "false", "yes", "no", "on", "off", "~", "42", "-7", "3.14", "0x1F",
        "0o17", "2026-06-12",
    ] {
        let escaped = yaml_escape_scalar(raw);
        assert!(
            escaped.starts_with('"') && escaped.ends_with('"'),
            "{raw} must be quoted but was rendered bare as {escaped}"
        );
        let doc = format!("v: {escaped}");
        let value: serde_yaml::Value = serde_yaml::from_str(&doc).expect("valid YAML");
        assert_eq!(value["v"].as_str(), Some(raw), "{raw} did not round-trip as a string");
    }
    assert_eq!(yaml_escape_scalar("weather"), "weather");
    let value: serde_yaml::Value = serde_yaml::from_str("v: weather").unwrap();
    assert_eq!(value["v"].as_str(), Some("weather"));
}

#[test]
fn yaml_escape_escapes_quotes_and_backslashes() {
    assert_eq!(yaml_escape_scalar("a \"b\" \\ c: d"), "\"a \\\"b\\\" \\\\ c: d\"");
    assert_eq!(yaml_escape_scalar(""), "\"\"");
}

#[test]
fn kc04_empty_set_returns_empty_for_both_formats() {
    let skills = load_one(vec![]).unwrap();
    assert!(skills.is_empty());
    assert_eq!(skills.format_for_prompt_as(SkillPromptFormat::Xml), "");
    assert_eq!(skills.format_for_prompt_as(SkillPromptFormat::Yaml), "");
    assert_eq!(skills.format_for_prompt(), "");
}

#[test]
fn merge_skill_sets() {
    let mut set1 = load_one(vec![skill("/d1", "weather", "Weather v1."), skill("/d1", "git", "Git operations.")]).unwrap();
    let set2 =
        load_one(vec![skill("/d2", "weather", "Weather v2."), skill("/d2", "docker", "Docker management.")]).unwrap();
    set1.merge(set2);

    assert_eq!(set1.len(), 3);
    let names: Vec<&str> = set1.skills().iter().map(|s| s.name.as_str()).collect();
    assert_eq!(names, vec!["docker", "git", "weather"]);
    assert_eq!(set1.skills().iter().find(|s| s.name == "weather").unwrap().description, "Weather v2.");
}

#[test]
fn load_real_agentskills_format() {
    let content = r#"---
name: nano-banana-pro
description: Generate or edit images via Gemini 3 Pro Image.
metadata:
  {
    "openclaw":
      {
        "emoji": "🍌",
        "requires": { "bins": ["uv"], "env": ["GEMINI_API_KEY"] },
      },
  }
---

# Nano Banana Pro

Use the bundled script to generate images.
"#;
    let skills = load_one(vec![entry("/t", "nano-banana-pro", content)]).unwrap();
    assert_eq!(skills.len(), 1);
    assert_eq!(skills.skills()[0].name, "nano-banana-pro");
    assert_eq!(skills.skills()[0].description, "Generate or edit images via Gemini 3 Pro Image.");
}

#[test]
fn load_dir_labels_with_the_given_source() {
    let set = SkillSet::load_dir(&[skill("/d", "a", "x")], "user").unwrap();
    assert_eq!(set.skills()[0].source, "user");
}

#[test]
fn unquote_keeps_a_lone_quote() {
    assert_eq!(unquote("\""), "\"");
    assert_eq!(unquote("'"), "'");
    assert_eq!(unquote("\"a b\""), "a b");
    assert_eq!(unquote("''"), "");
    assert_eq!(unquote("'a\""), "'a\"");
}

#[test]
fn lone_quote_description_loads_as_is() {
    let (n, d) = parse_frontmatter("---\nname: x\ndescription: '\n---\n", "p").ok().unwrap();
    assert_eq!(n, "x");
    assert_eq!(d, "'");
    let set = SkillSet::load_dir(&[entry("d", "x", "---\nname: x\ndescription: \"\n---\n")], "src").ok().unwrap();
    assert_eq!(set.skills()[0].description, "\"");
}
