use phi_core::tools::bash::{bash_result, require_command, timed_out, BashTool};
use phi_core::tools::prun::{PrunTool, PrunVariant};
use phi_core::tools::registry::ToolRegistry;
use phi_core::tools::revert::{RevertTool, REVERT_SCHEMA};
use phi_core::tools::search::{build_grep_args, build_rg_args, require_pattern, search_outcome};
use phi_core::tools::{default_tools, ToolError, ToolKind, ToolResult};
use phi_core::types::{Content, NodeId, RevertCategory};

fn text_of(r: &ToolResult) -> String {
    match &r.content[0] {
        Content::Text { text } => text.clone(),
        _ => panic!("expected text"),
    }
}

#[test]
fn test_empty_registry() {
    let registry = ToolRegistry::new();
    assert!(registry.is_empty());
    let tools = registry.resolve(&["bash".to_string()]);
    assert!(tools.is_empty());
}

#[test]
fn test_with_defaults() {
    let registry = ToolRegistry::new().with_defaults();
    assert_eq!(registry.len(), 6);
    assert!(registry.contains("bash"));
    assert!(registry.contains("read_file"));
    assert!(registry.contains("write_file"));
    assert!(registry.contains("edit_file"));
    assert!(registry.contains("list_files"));
    assert!(registry.contains("search"));
}

#[test]
fn test_resolve_subset() {
    let registry = ToolRegistry::new().with_defaults();
    let tools = registry.resolve(&["bash".to_string(), "search".to_string()]);
    assert_eq!(tools.len(), 2);
    assert_eq!(tools, vec![ToolKind::Bash, ToolKind::Search]);
}

#[test]
fn test_resolve_skips_unknown() {
    let registry = ToolRegistry::new().with_defaults();
    let tools = registry.resolve(&["bash".to_string(), "nonexistent".to_string()]);
    assert_eq!(tools.len(), 1);
}

#[test]
fn test_custom_registration() {
    let mut registry = ToolRegistry::new();
    registry.register("bash", ToolKind::Bash);
    assert_eq!(registry.len(), 1);
    assert!(registry.contains("bash"));
}

#[test]
fn registering_a_name_again_replaces_it() {
    let mut registry = ToolRegistry::new();
    registry.register("x", ToolKind::Custom(1));
    registry.register("x", ToolKind::Custom(2));
    assert_eq!(registry.len(), 1);
    assert_eq!(registry.lookup("x"), Some(ToolKind::Custom(2)));
    assert_eq!(registry.lookup("y"), None);
}

#[test]
fn default_tools_in_order() {
    assert_eq!(
        default_tools(),
        vec![ToolKind::Bash, ToolKind::ReadFile, ToolKind::WriteFile, ToolKind::EditFile, ToolKind::ListFiles, ToolKind::Search]
    );
}

#[test]
fn description_teaches_tree_node_model_and_forward_continuation() {
    let t = RevertTool::new();
    let desc = t.description();
    assert!(desc.contains("TREE of nodes"), "description must teach the tree model: {desc}");
    assert!(
        desc.contains("[n0]") && desc.contains("those tags ARE the nodes"),
        "description must teach that the [nN] markers ARE the nodes: {desc}"
    );
    assert!(
        desc.contains("new tip") && desc.contains("dropped from your active context"),
        "description must teach that naming a node makes it the new tip: {desc}"
    );
    assert!(desc.contains("CONTINUE FORWARD"), "description must teach forward-continuation: {desc}");
}

#[test]
fn description_names_the_tool_help_doc_reference() {
    let t = RevertTool::new();
    let desc = t.description();
    assert!(desc.contains("tool_help(\"revert_to_state\")"), "description must name the tool_help doc-reference: {desc}");
}

#[test]
fn step_param_teaches_node_selection() {
    let schema: serde_json::Value = serde_json::from_str(RevertTool::new().parameters_schema()).unwrap();
    assert_eq!(RevertTool::new().parameters_schema(), REVERT_SCHEMA);
    let step_desc = schema["properties"]["step"]["description"].as_str().unwrap();
    assert!(step_desc.contains("JUST BEFORE the branch"), "step param must teach node selection: {step_desc}");
    assert!(step_desc.contains("n0 discards the entire conversation"), "step param must teach n0 = full restart: {step_desc}");
}

#[test]
fn revert_accepts_a_valid_request() {
    let (req, res) = RevertTool::new()
        .accept(Some("step-summary".into()), Some("n12".into()), Some("tried x".into()))
        .ok()
        .unwrap();
    assert_eq!(req.category, RevertCategory::StepSummary);
    assert_eq!(req.target, NodeId(12));
    assert_eq!(req.summary, Some("tried x".to_string()));
    assert_eq!(
        text_of(&res),
        "Revert request recorded: category=StepSummary, target=n12, summary=\"tried x\". The trunk will be rebuilt from this node before the next turn."
    );
    assert_eq!(res.details, "null");
}

#[test]
fn revert_rejects_bad_arguments() {
    let t = RevertTool::new();
    assert!(matches!(t.accept(None, Some("1".into()), None), Err(ToolError::InvalidArgs(m)) if m == "category is required"));
    assert!(matches!(t.accept(Some("failure".into()), None, None), Err(ToolError::InvalidArgs(m)) if m == "step is required"));
    match t.accept(Some("oops".into()), Some("1".into()), None) {
        Err(ToolError::InvalidArgs(m)) => {
            assert_eq!(m, "category must be one of failure | tangent | completion | step-summary; got \"oops\"")
        },
        _ => panic!("expected invalid args"),
    }
    match t.accept(Some("failure".into()), Some("nx".into()), None) {
        Err(ToolError::InvalidArgs(m)) => assert_eq!(m, "step must be a node identifier like \"n12\" or \"12\"; got \"nx\""),
        _ => panic!("expected invalid args"),
    }
}

#[test]
fn prun_accept() {
    let plain = PrunTool::new(PrunVariant::Prun);
    let (req, res) = plain.accept(Some(40), Some("memo".into())).ok().unwrap();
    assert_eq!(req.tokens_to_remove, 40);
    assert_eq!(req.memo, None);
    assert_eq!(text_of(&res), "Prun request recorded: 40 tokens will be removed before next turn.");
    let memo = PrunTool::new(PrunVariant::PrunWithMemo);
    let (req, _) = memo.accept(Some(3), Some("memo".into())).ok().unwrap();
    assert_eq!(req.memo, Some("memo".to_string()));
    assert!(matches!(plain.accept(None, None), Err(ToolError::InvalidArgs(m)) if m == "tokens must be > 0"));
    assert!(matches!(plain.accept(Some(0), None), Err(ToolError::InvalidArgs(_))));
    assert!(matches!(memo.accept(Some(3), None), Err(ToolError::InvalidArgs(m)) if m == "memo is required for prun_with_memo"));
    assert!(matches!(memo.accept(Some(0), None), Err(ToolError::InvalidArgs(m)) if m == "tokens must be > 0"));
}

#[test]
fn prun_names() {
    assert_eq!(PrunTool::new(PrunVariant::Prun).name(), "prun");
    assert_eq!(PrunTool::new(PrunVariant::PrunWithMemo).name(), "prun_with_memo");
}

#[test]
fn bash_deny_patterns_block_commands() {
    let tool = BashTool::default();
    match tool.check_command("sudo rm -rf / --no-preserve-root") {
        Err(ToolError::Failed(m)) => {
            assert_eq!(m, "Command blocked by safety policy: contains 'rm -rf /'. This pattern is denied for safety.")
        },
        _ => panic!("expected a refusal"),
    }
    assert!(tool.check_command("ls -la").is_ok());
    let custom = BashTool::new().with_deny_patterns(vec!["curl".into()]);
    assert!(custom.check_command("curl x").is_err());
    assert!(custom.check_command("mkfs").is_ok());
}

#[test]
fn bash_result_formats_output() {
    let r = bash_result("hi\n".into(), "".into(), Some(0), 100);
    assert_eq!(text_of(&r), "Exit code: 0\nhi\n");
    assert_eq!(r.details, "{\"exit_code\":0,\"success\":true}");
    let r = bash_result("out".into(), "err".into(), None, 100);
    assert_eq!(text_of(&r), "Exit code: -1\nSTDOUT:\nout\nSTDERR:\nerr");
    assert_eq!(r.details, "{\"exit_code\":-1,\"success\":false}");
}

#[test]
fn bash_result_clips_long_output() {
    let r = bash_result("abcdef".into(), "".into(), Some(1), 3);
    assert_eq!(text_of(&r), "Exit code: 1\nabc\n... (output truncated)");
}

#[test]
fn bash_result_cuts_before_a_split_character() {
    // "é" takes two bytes: a limit of 2 falls inside it, so only "a" is kept.
    let r = bash_result("aé!".into(), "".into(), Some(0), 2);
    assert_eq!(text_of(&r), "Exit code: 0\na\n... (output truncated)");
    let r = bash_result("aé!".into(), "".into(), Some(0), 3);
    assert_eq!(text_of(&r), "Exit code: 0\naé\n... (output truncated)");
}

#[test]
fn bash_argument_errors() {
    assert!(matches!(require_command(None), Err(ToolError::InvalidArgs(m)) if m == "missing 'command' parameter"));
    assert_eq!(require_command(Some("ls".into())).ok(), Some("ls".to_string()));
    assert!(matches!(timed_out(5), ToolError::Failed(m) if m == "Command timed out after 5s"));
}

#[test]
fn search_command_lines() {
    let (cmd, args) = build_rg_args("foo", ".", Some("*.rs"), false, 50);
    assert_eq!(cmd, "rg");
    assert_eq!(args, vec!["--line-number", "--no-heading", "--max-count=50", "--ignore-case", "--glob=*.rs", "foo", "."]);
    let (cmd, args) = build_grep_args("foo", "src", None, true, 7);
    assert_eq!(cmd, "grep");
    assert_eq!(args, vec!["-r", "-n", "-m7", "foo", "src"]);
}

#[test]
fn search_outcomes() {
    assert!(matches!(require_pattern(None), Err(ToolError::InvalidArgs(_))));
    match search_outcome("x", "", "bad regex", Some(2), 50) {
        Err(ToolError::Failed(m)) => assert_eq!(m, "Search error: bad regex"),
        _ => panic!("expected failure"),
    }
    let r = search_outcome("x", "", "", Some(1), 50).ok().unwrap();
    assert_eq!(text_of(&r), "No matches found for 'x'");
    assert_eq!(r.details, "{\"matches\":0}");
    let r = search_outcome("x", "a:1:x\nb:2:x\n", "", Some(0), 50).ok().unwrap();
    assert_eq!(text_of(&r), "a:1:x\nb:2:x\n(2 matches)");
    assert_eq!(r.details, "{\"matches\":2}");
    let r = search_outcome("x", "a\nb\nc", "", Some(0), 2).ok().unwrap();
    assert_eq!(text_of(&r), "a\nb\nc\n... (showing first 2 matches)");
}

use phi_core::tools::tool_help::{ToolCatalogEntry, ToolHelpTool, PRUN_HELP};

#[test]
fn returns_manual_for_a_named_tool() {
    let tool = ToolHelpTool::with_default_help();
    let text = text_of(&tool.execute(Some("revert_to_state")).ok().unwrap());
    assert!(text.contains("TREE of nodes"), "manual must teach the tree model: {text}");
    assert!(text.contains("CONTINUE FORWARD"), "manual must teach forward-continuation: {text}");
}

#[test]
fn unknown_tool_lists_available_tools() {
    let tool = ToolHelpTool::with_default_help();
    let text = text_of(&tool.execute(Some("does_not_exist")).ok().unwrap());
    assert!(text.contains("No extended manual is registered"), "{text}");
    assert!(text.contains("revert_to_state"), "{text}");
    assert!(text.contains("prun"), "{text}");
    assert_eq!(
        text,
        "No extended manual is registered for \"does_not_exist\". Tools with a manual: prun, prun_with_memo, revert_to_state."
    );
}

#[test]
fn unknown_tool_with_no_manuals_says_none() {
    let tool = ToolHelpTool::new(vec![]);
    let text = text_of(&tool.execute(Some("x")).ok().unwrap());
    assert_eq!(text, "No extended manual is registered for \"x\". Tools with a manual: (none).");
}

#[test]
fn missing_tool_name_is_invalid_args() {
    let tool = ToolHelpTool::with_default_help();
    assert!(matches!(tool.execute(None), Err(ToolError::InvalidArgs(_))));
}

#[test]
fn consumer_supplied_map_is_used() {
    let tool = ToolHelpTool::new(vec![("my_tool".to_string(), "my custom manual".to_string())]);
    assert_eq!(text_of(&tool.execute(Some("my_tool")).ok().unwrap()), "my custom manual");
    let tool = tool.with_help("my_tool".into(), "newer".into());
    assert_eq!(text_of(&tool.execute(Some("my_tool")).ok().unwrap()), "newer");
}

#[test]
fn catalog_serves_detailed_and_full_schema() {
    let snapshot = vec![(
        "my_tool".to_string(),
        ToolCatalogEntry {
            detailed: Some("MY DETAILED MANUAL BODY".into()),
            schema: "{\"properties\":{\"path\":{\"type\":\"string\"}},\"required\":[\"path\"],\"type\":\"object\"}".into(),
        },
    )];
    let help = ToolHelpTool::with_default_help().with_catalog(snapshot);
    let text = text_of(&help.execute(Some("my_tool")).ok().unwrap());
    assert!(text.contains("MY DETAILED MANUAL BODY"), "{text}");
    assert!(text.contains("PARAMETERS (JSON Schema)"), "{text}");
    assert!(text.contains("\"path\""), "must include the full schema: {text}");
    assert!(text.starts_with("MY DETAILED MANUAL BODY\n\nPARAMETERS (JSON Schema):\n{\n  \""));
}

#[test]
fn catalog_serves_mcp_full_input_schema() {
    let snapshot = vec![(
        "mcp_search".to_string(),
        ToolCatalogEntry {
            detailed: None,
            schema: "{\"properties\":{\"limit\":{\"type\":\"integer\"},\"query\":{\"type\":\"string\"}},\"required\":[\"query\"],\"type\":\"object\"}".into(),
        },
    )];
    let help = ToolHelpTool::new(vec![]).with_catalog(snapshot);
    let text = text_of(&help.execute(Some("mcp_search")).ok().unwrap());
    assert!(text.contains("\"query\"") && text.contains("\"limit\""), "MCP full inputSchema must be served: {text}");
    assert!(text.starts_with("PARAMETERS (JSON Schema):\n"));
}

#[test]
fn catalog_miss_falls_back_to_static_map() {
    let snapshot = vec![("foo".to_string(), ToolCatalogEntry { detailed: Some("foo body".into()), schema: "{\"type\":\"object\"}".into() })];
    let help = ToolHelpTool::with_default_help().with_catalog(snapshot);
    let text = text_of(&help.execute(Some("revert_to_state")).ok().unwrap());
    assert!(text.contains("TREE of nodes"), "static-map fallback must still serve REVERT_HELP: {text}");
    let text = text_of(&help.execute(Some("nope")).ok().unwrap());
    assert!(text.ends_with("Tools with a manual: foo, prun, prun_with_memo, revert_to_state."));
}

#[test]
fn catalog_without_detail_uses_the_manual() {
    let snapshot = vec![("prun".to_string(), ToolCatalogEntry { detailed: None, schema: "not json".into() })];
    let help = ToolHelpTool::with_default_help().with_catalog(snapshot);
    let text = text_of(&help.execute(Some("prun")).ok().unwrap());
    assert_eq!(text, format!("{}\n\nPARAMETERS (JSON Schema):\nnot json", PRUN_HELP));
}

#[test]
fn denied_commands_are_refused_before_the_user_is_asked() {
    let tool = BashTool::default().with_confirm(|_: &str| -> bool { panic!("the user was asked") });
    let refused = tool.vet_command("rm -rf / --no-preserve-root", tool.confirm_fn.as_ref());
    assert!(matches!(refused, Err(ToolError::Failed(m)) if m.contains("rm -rf /")));
    let declined = BashTool::default().with_confirm(|_: &str| false);
    assert!(matches!(
        declined.vet_command("ls", declined.confirm_fn.as_ref()),
        Err(ToolError::Failed(m)) if m == "Command was not confirmed by the user."
    ));
    let approved = BashTool::default().with_confirm(|c: &str| c == "ls");
    assert!(approved.vet_command("ls", approved.confirm_fn.as_ref()).is_ok());
    assert!(approved.vet_command("pwd", approved.confirm_fn.as_ref()).is_err());
}
