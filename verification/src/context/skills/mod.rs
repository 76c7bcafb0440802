//! Skills: directories holding a `SKILL.md` whose frontmatter names and
//! describes the skill, collected into a name-ordered set and rendered into a
//! system prompt.
pub mod scalars;
pub mod frontmatter;
pub mod order;

use vstd::prelude::*;
use crate::strs::{chars_of, copy_string, decimal, push_char, push_decimal, push_str, to_owned_string};
use crate::context::skills::scalars::{xml_escape, xml_escaped, yaml_escape_scalar, yaml_scalar};
use crate::context::skills::frontmatter::{frontmatter_outcome, parse_frontmatter,
    FrontmatterFault};
use crate::context::skills::order::{name_lt, compare_names, NameOrder, lemma_name_lt_irreflexive,
    lemma_name_lt_transitive, lemma_name_lt_total, lemma_name_lt_asymmetric};

verus! {

/// Errors while loading skills.
#[derive(Debug)]
pub enum SkillError {
    /// A directory or `SKILL.md` could not be read.
    Io { path: String, detail: String },
    /// The frontmatter lacks `name` or `description`, or leaves it empty.
    MissingField { path: String, field: &'static str },
    /// The frontmatter block is not delimited by `---` lines.
    InvalidFrontmatter { path: String, detail: String },
}

/// The value of a [`SkillError`]: strings as character sequences.
pub enum SkillErrorV {
    Io { path: Seq<char>, detail: Seq<char> },
    MissingField { path: Seq<char>, field: Seq<char> },
    InvalidFrontmatter { path: Seq<char>, detail: Seq<char> },
}

impl View for SkillError {
    type V = SkillErrorV;

    open spec fn view(&self) -> SkillErrorV {
        match self {
            SkillError::Io { path, detail } => SkillErrorV::Io { path: path@, detail: detail@ },
            SkillError::MissingField { path, field } => SkillErrorV::MissingField { path: path@, field: field@ },
            SkillError::InvalidFrontmatter { path, detail } => SkillErrorV::InvalidFrontmatter {
                path: path@,
                detail: detail@,
            },
        }
    }
}

/// A loaded skill.
#[derive(Debug)]
pub struct Skill {
    /// The skill's name: the name of its directory.
    pub name: String,
    /// What the skill does and when to use it.
    pub description: String,
    /// The path of its `SKILL.md`.
    pub file_path: String,
    /// The path of its directory.
    pub base_dir: String,
    /// Where the skill was loaded from, such as `dir:0` or a caller's label.
    pub source: String,
}

/// The value of a [`Skill`].
pub struct SkillV {
    pub name: Seq<char>,
    pub description: Seq<char>,
    pub file_path: Seq<char>,
    pub base_dir: Seq<char>,
    pub source: Seq<char>,
}

impl View for Skill {
    type V = SkillV;

    open spec fn view(&self) -> SkillV {
        SkillV {
            name: self.name@,
            description: self.description@,
            file_path: self.file_path@,
            base_dir: self.base_dir@,
            source: self.source@,
        }
    }
}

/// The values of a list of skills.
pub open spec fn skills_view(s: Seq<Skill>) -> Seq<SkillV> {
    s.map_values(|k: Skill| k@)
}

/// The names strictly increase along `s`: sorted, and no name twice.
pub open spec fn names_sorted(s: Seq<SkillV>) -> bool {
    forall|i: int, j: int| 0 <= i < j < s.len() ==> name_lt(#[trigger] s[i].name, #[trigger] s[j].name)
}

/// `s` with `v` put in name order, replacing the skill of the same name.
pub open spec fn insert_by_name(s: Seq<SkillV>, v: SkillV) -> Seq<SkillV>
    decreases s.len(),
{
    if s.len() == 0 {
        seq![v]
    } else if s[0].name == v.name {
        seq![v] + s.drop_first()
    } else if name_lt(s[0].name, v.name) {
        seq![s[0]] + insert_by_name(s.drop_first(), v)
    } else {
        seq![v] + s
    }
}

/// The skills of `xs` put into `acc` one after the other, in order.
pub open spec fn insert_all(acc: Seq<SkillV>, xs: Seq<SkillV>) -> Seq<SkillV>
    decreases xs.len(),
{
    if xs.len() == 0 {
        acc
    } else {
        insert_all(insert_by_name(acc, xs[0]), xs.drop_first())
    }
}

/// The first skill of `s` named `k`.
pub open spec fn lookup(s: Seq<SkillV>, k: Seq<char>) -> Option<SkillV>
    decreases s.len(),
{
    if s.len() == 0 {
        None
    } else if s[0].name == k {
        Some(s[0])
    } else {
        lookup(s.drop_first(), k)
    }
}

/// The last skill of `s` named `k`.
pub open spec fn lookup_last(s: Seq<SkillV>, k: Seq<char>) -> Option<SkillV>
    decreases s.len(),
{
    if s.len() == 0 {
        None
    } else {
        match lookup_last(s.drop_first(), k) {
            Some(x) => Some(x),
            None => if s[0].name == k { Some(s[0]) } else { None },
        }
    }
}

proof fn lemma_insert_members(s: Seq<SkillV>, v: SkillV)
    ensures
        forall|i: int| 0 <= i < insert_by_name(s, v).len() ==>
            #[trigger] insert_by_name(s, v)[i] == v || s.contains(insert_by_name(s, v)[i]),
    decreases s.len(),
{
    let r = insert_by_name(s, v);
    if s.len() > 0 && s[0].name != v.name && name_lt(s[0].name, v.name) {
        lemma_insert_members(s.drop_first(), v);
        assert forall|i: int| 0 <= i < r.len() implies #[trigger] r[i] == v || s.contains(r[i]) by {
            if i == 0 {
                assert(s.contains(s[0]));
            } else {
                let x = insert_by_name(s.drop_first(), v)[i - 1];
                assert(r[i] == x);
                if x != v {
                    let j = choose|j: int| 0 <= j < s.drop_first().len() && s.drop_first()[j] == x;
                    assert(s[j + 1] == x);
                }
            }
        }
    } else if s.len() > 0 && s[0].name == v.name {
        assert forall|i: int| 0 <= i < r.len() implies #[trigger] r[i] == v || s.contains(r[i]) by {
            if i > 0 {
                assert(r[i] == s[i]);
            }
        }
    } else if s.len() > 0 {
        assert forall|i: int| 0 <= i < r.len() implies #[trigger] r[i] == v || s.contains(r[i]) by {
            if i > 0 {
                assert(r[i] == s[i - 1]);
            }
        }
    }
}

/// Putting a skill into a name-ordered list keeps it name-ordered.
pub proof fn law_insert_keeps_order(s: Seq<SkillV>, v: SkillV)
    requires
        names_sorted(s),
    ensures
        names_sorted(insert_by_name(s, v)),
    decreases s.len(),
{
    let r = insert_by_name(s, v);
    if s.len() == 0 {
    } else if s[0].name == v.name {
        assert forall|i: int, j: int| 0 <= i < j < r.len() implies name_lt(#[trigger] r[i].name, #[trigger] r[j].name) by {
            assert(r[j] == s[j]);
            if i > 0 {
                assert(r[i] == s[i]);
            }
        }
    } else if name_lt(s[0].name, v.name) {
        let t = s.drop_first();
        assert(names_sorted(t)) by {
            assert forall|i: int, j: int| 0 <= i < j < t.len() implies name_lt(#[trigger] t[i].name, #[trigger] t[j].name) by {
                assert(t[i] == s[i + 1] && t[j] == s[j + 1]);
            }
        }
        law_insert_keeps_order(t, v);
        lemma_insert_members(t, v);
        let q = insert_by_name(t, v);
        assert forall|i: int, j: int| 0 <= i < j < r.len() implies name_lt(#[trigger] r[i].name, #[trigger] r[j].name) by {
            assert(r[j] == q[j - 1]);
            if i == 0 {
                assert(r[0] == s[0]);
                if q[j - 1] != v {
                    let m = choose|m: int| 0 <= m < t.len() && t[m] == q[j - 1];
                    assert(s[m + 1] == t[m]);
                }
            } else {
                assert(r[i] == q[i - 1]);
            }
        }
    } else {
        lemma_name_lt_total(s[0].name, v.name);
        assert forall|i: int, j: int| 0 <= i < j < r.len() implies name_lt(#[trigger] r[i].name, #[trigger] r[j].name) by {
            assert(r[j] == s[j - 1]);
            if i == 0 {
                if j - 1 > 0 {
                    lemma_name_lt_transitive(v.name, s[0].name, s[j - 1].name);
                }
            } else {
                assert(r[i] == s[i - 1]);
            }
        }
    }
}

/// Putting skills one after the other into a name-ordered list keeps it name-ordered.
pub proof fn law_insert_all_keeps_order(acc: Seq<SkillV>, xs: Seq<SkillV>)
    requires
        names_sorted(acc),
    ensures
        names_sorted(insert_all(acc, xs)),
    decreases xs.len(),
{
    if xs.len() > 0 {
        law_insert_keeps_order(acc, xs[0]);
        law_insert_all_keeps_order(insert_by_name(acc, xs[0]), xs.drop_first());
    }
}

/// After putting `v` in, the skill named `v.name` is `v`, and every other name
/// finds what it found before.
pub proof fn law_insert_then_lookup(s: Seq<SkillV>, v: SkillV, k: Seq<char>)
    ensures
        lookup(insert_by_name(s, v), k) == (if k == v.name { Some(v) } else { lookup(s, k) }),
    decreases s.len(),
{
    let r = insert_by_name(s, v);
    if s.len() == 0 {
        assert(r[0] == v);
        assert(r.drop_first() =~= seq![]);
        assert(lookup(r.drop_first(), k) is None);
        assert(lookup(r, k) == (if k == v.name { Some(v) } else { lookup(s, k) }));
    } else if s[0].name == v.name {
        assert(r[0] == v);
        assert(r.drop_first() =~= s.drop_first());
        assert(lookup(r, k) == (if k == v.name { Some(v) } else { lookup(s, k) }));
    } else if name_lt(s[0].name, v.name) {
        law_insert_then_lookup(s.drop_first(), v, k);
        assert(r[0] == s[0]);
        assert(r.drop_first() =~= insert_by_name(s.drop_first(), v));
        assert(lookup(r, k) == (if k == v.name { Some(v) } else { lookup(s, k) }));
    } else {
        assert(r[0] == v);
        assert(r.drop_first() =~= s);
        assert(lookup(r, k) == (if k == v.name { Some(v) } else { lookup(s, k) }));
    }
}

/// Later skills win: after putting `xs` into `acc` in order, a name finds the last
/// skill of `xs` with that name, or what it found in `acc` if `xs` has none.
pub proof fn law_later_skills_win(acc: Seq<SkillV>, xs: Seq<SkillV>, k: Seq<char>)
    ensures
        lookup(insert_all(acc, xs), k) == (match lookup_last(xs, k) {
            Some(x) => Some(x),
            None => lookup(acc, k),
        }),
    decreases xs.len(),
{
    if xs.len() > 0 {
        law_later_skills_win(insert_by_name(acc, xs[0]), xs.drop_first(), k);
        law_insert_then_lookup(acc, xs[0], k);
    }
}

proof fn lemma_insert_position(s: Seq<SkillV>, v: SkillV, p: int, same: bool)
    requires
        names_sorted(s),
        0 <= p <= s.len(),
        forall|j: int| 0 <= j < p ==> name_lt(#[trigger] s[j].name, v.name),
        same ==> p < s.len() && s[p].name == v.name,
        !same ==> p == s.len() || name_lt(v.name, s[p].name),
    ensures
        insert_by_name(s, v) == (if same { s.update(p, v) } else { s.insert(p, v) }),
    decreases p,
{
    if p == 0 {
        if same {
            assert(insert_by_name(s, v) =~= s.update(0, v));
        } else if s.len() == 0 {
            assert(insert_by_name(s, v) =~= s.insert(0, v));
        } else {
            lemma_name_lt_irreflexive(v.name);
            lemma_name_lt_asymmetric(v.name, s[0].name);
            assert(insert_by_name(s, v) =~= s.insert(0, v));
        }
    } else {
        let t = s.drop_first();
        lemma_name_lt_irreflexive(v.name);
        assert(s[0].name != v.name);
        assert(names_sorted(t)) by {
            assert forall|i: int, j: int| 0 <= i < j < t.len() implies name_lt(#[trigger] t[i].name, #[trigger] t[j].name) by {
                assert(t[i] == s[i + 1] && t[j] == s[j + 1]);
            }
        }
        assert forall|j: int| 0 <= j < p - 1 implies name_lt(#[trigger] t[j].name, v.name) by {
            assert(t[j] == s[j + 1]);
        }
        lemma_insert_position(t, v, p - 1, same);
        if same {
            assert(insert_by_name(s, v) =~= s.update(p, v));
        } else {
            assert(insert_by_name(s, v) =~= s.insert(p, v));
        }
    }
}

/// Puts `s` into the name-ordered list `v`, replacing the skill of the same name.
fn insert_sorted(v: &mut Vec<Skill>, s: Skill)
    requires
        names_sorted(skills_view(old(v)@)),
    ensures
        skills_view(final(v)@) == insert_by_name(skills_view(old(v)@), s@),
        names_sorted(skills_view(final(v)@)),
{
    let ghost sv = skills_view(v@);
    let key = chars_of(s.name.as_str());
    let mut p: usize = 0;
    let mut same = false;
    while p < v.len()
        invariant_except_break
            0 <= p <= v.len(),
            !same,
        invariant
            sv == skills_view(v@),
            key@ == s@.name,
            forall|j: int| 0 <= j < p ==> name_lt(#[trigger] sv[j].name, key@),
        ensures
            0 <= p <= v.len(),
            same ==> p < v.len() && sv[p as int].name == key@,
            !same ==> p == v.len() || name_lt(key@, sv[p as int].name),
        decreases v.len() - p,
    {
        let cur = chars_of(v[p].name.as_str());
        assert(sv[p as int] == v@[p as int]@);
        match compare_names(&cur, &key) {
            NameOrder::Before => {
                p = p + 1;
            },
            NameOrder::Same => {
                same = true;
                break;
            },
            NameOrder::After => {
                break;
            },
        }
    }
    proof {
        lemma_insert_position(sv, s@, p as int, same);
        law_insert_keeps_order(sv, s@);
    }
    if same {
        v.remove(p);
        assert(skills_view(v@) =~= sv.remove(p as int));
    }
    v.insert(p, s);
    if same {
        assert(skills_view(v@) =~= sv.update(p as int, s@));
    } else {
        assert(skills_view(v@) =~= sv.insert(p as int, s@));
    }
}

/// How the skill index is laid out in a system prompt.
#[derive(PartialEq, Eq, Structural, Clone, Copy, Debug)]
pub enum SkillPromptFormat {
    /// The AgentSkills `<available_skills>` XML block; the default.
    Xml,
    /// A lighter YAML mapping holding a sequence of `name`/`description`/`location` entries.
    Yaml,
}

impl Default for SkillPromptFormat {
    fn default() -> (r: Self)
        ensures
            r == SkillPromptFormat::Xml,
    {
        SkillPromptFormat::Xml
    }
}

/// A collection of skills, kept in name order with no name twice.
#[derive(Debug)]
pub struct SkillSet {
    skills: Vec<Skill>,
}

impl View for SkillSet {
    type V = Seq<SkillV>;

    closed spec fn view(&self) -> Seq<SkillV> {
        skills_view(self.skills@)
    }
}

/// The XML entry of one skill.
pub open spec fn xml_skill_entry(k: SkillV) -> Seq<char> {
    "  <skill>\n"@ + "    <name>"@ + xml_escaped(k.name) + "</name>\n"@ + "    <description>"@
        + xml_escaped(k.description) + "</description>\n"@ + "    <location>"@ + xml_escaped(k.file_path)
        + "</location>\n"@ + "  </skill>\n"@
}

/// The YAML entry of one skill, ending with a line break.
pub open spec fn yaml_skill_entry(k: SkillV) -> Seq<char> {
    "  - name: "@ + yaml_scalar(k.name) + seq!['\n'] + "    description: "@ + yaml_scalar(k.description)
        + seq!['\n'] + "    location: "@ + yaml_scalar(k.file_path) + seq!['\n']
}

/// The entries of `ks`, one after the other.
pub open spec fn concat_entries(ks: Seq<SkillV>, f: spec_fn(SkillV) -> Seq<char>) -> Seq<char>
    decreases ks.len(),
{
    if ks.len() == 0 {
        seq![]
    } else {
        concat_entries(ks.drop_last(), f) + f(ks.last())
    }
}

/// The skill index of `ks` in the layout `format`; empty when there are no skills.
pub open spec fn skills_prompt(ks: Seq<SkillV>, format: SkillPromptFormat) -> Seq<char> {
    if ks.len() == 0 {
        seq![]
    } else {
        match format {
            SkillPromptFormat::Xml => "<available_skills>\n"@ + concat_entries(ks, |k: SkillV| xml_skill_entry(k))
                + "</available_skills>"@,
            SkillPromptFormat::Yaml => ("available_skills:"@ + seq!['\n'] + concat_entries(
                ks,
                |k: SkillV| yaml_skill_entry(k),
            )).drop_last(),
        }
    }
}

/// The path of the `SKILL.md` inside the directory `base`, as `Path::join` forms it.
pub open spec fn skill_md_in(base: Seq<char>) -> Seq<char> {
    if base.len() == 0 {
        "SKILL.md"@
    } else if base.last() == '/' {
        base + "SKILL.md"@
    } else {
        base + seq!['/'] + "SKILL.md"@
    }
}

/// A skill directory found while scanning a directory of skills.
#[derive(Debug)]
pub struct SkillEntry {
    /// The name of the skill's directory.
    pub dir_name: String,
    /// The path of its `SKILL.md`, as found.
    pub skill_md: String,
    /// The canonical path of the skill's directory.
    pub base_dir: String,
    /// The text of its `SKILL.md`, or why it could not be read.
    pub content: Result<String, String>,
}

/// What scanning one directory of skills found.
#[derive(Debug)]
pub enum DirListing {
    /// The directory does not exist; it is skipped.
    Missing,
    /// The directory could not be read.
    Unreadable { path: String, detail: String },
    /// The skill directories in it that hold a `SKILL.md`.
    Entries(Vec<SkillEntry>),
}

/// The error value for a fault in the frontmatter of the file at `path`.
pub open spec fn fault_error_v(fault: FrontmatterFault, path: Seq<char>) -> SkillErrorV {
    match fault {
        FrontmatterFault::MissingOpening => SkillErrorV::InvalidFrontmatter { path, detail: "missing opening ---"@ },
        FrontmatterFault::MissingClosing => SkillErrorV::InvalidFrontmatter { path, detail: "missing closing ---"@ },
        FrontmatterFault::MissingName => SkillErrorV::MissingField { path, field: "name"@ },
        FrontmatterFault::MissingDescription => SkillErrorV::MissingField { path, field: "description"@ },
    }
}

/// The skill an entry holds, or the error it gives.
pub open spec fn entry_outcome(e: SkillEntry, source: Seq<char>) -> Result<SkillV, SkillErrorV> {
    match e.content {
        Err(detail) => Err(SkillErrorV::Io { path: e.skill_md@, detail: detail@ }),
        Ok(c) => match frontmatter_outcome(c@) {
            Err(f) => Err(fault_error_v(f, e.skill_md@)),
            Ok((n, d)) => Ok(SkillV {
                name: e.dir_name@,
                description: d,
                file_path: skill_md_in(e.base_dir@),
                base_dir: e.base_dir@,
                source,
            }),
        },
    }
}

/// The skills of `es` put into `acc` in order, or the first error among them.
pub open spec fn load_entries(acc: Seq<SkillV>, es: Seq<SkillEntry>, source: Seq<char>) -> Result<Seq<SkillV>, SkillErrorV>
    decreases es.len(),
{
    if es.len() == 0 {
        Ok(acc)
    } else {
        match entry_outcome(es[0], source) {
            Err(x) => Err(x),
            Ok(k) => load_entries(insert_by_name(acc, k), es.drop_first(), source),
        }
    }
}

/// The label of the `i`th directory: `dir:` and its index.
pub open spec fn dir_source(i: nat) -> Seq<char> {
    "dir:"@ + decimal(i)
}

/// The skills of `dirs[i..]` put into `acc`, later directories winning, or the first error.
pub open spec fn load_dirs(acc: Seq<SkillV>, dirs: Seq<DirListing>, i: nat) -> Result<Seq<SkillV>, SkillErrorV>
    decreases dirs.len() - i,
{
    if i >= dirs.len() {
        Ok(acc)
    } else {
        match dirs[i as int] {
            DirListing::Missing => load_dirs(acc, dirs, i + 1),
            DirListing::Unreadable { path, detail } => Err(SkillErrorV::Io { path: path@, detail: detail@ }),
            DirListing::Entries(es) => match load_entries(seq![], es@, dir_source(i)) {
                Err(x) => Err(x),
                Ok(ks) => load_dirs(insert_all(acc, ks), dirs, i + 1),
            },
        }
    }
}

/// `s` followed by `SKILL.md` as a path component.
fn join_skill_md(base: &String) -> (r: String)
    ensures
        r@ == skill_md_in(base@),
{
    let v = chars_of(base.as_str());
    let mut out = copy_string(base);
    if v.len() > 0 && v[v.len() - 1] != '/' {
        push_char(&mut out, '/');
    }
    push_str(&mut out, "SKILL.md");
    out
}

/// The skill held by one entry of a skill directory, named after its directory.
pub fn skill_from_entry(e: &SkillEntry, source: &str) -> (r: Result<Skill, SkillError>)
    ensures
        match (r, entry_outcome(*e, source@)) {
            (Ok(k), Ok(v)) => k@ == v,
            (Err(x), Err(y)) => x@ == y,
            _ => false,
        },
{
    match &e.content {
        Err(detail) => Err(SkillError::Io { path: copy_string(&e.skill_md), detail: copy_string(detail) }),
        Ok(c) => match parse_frontmatter(c.as_str(), e.skill_md.as_str()) {
            Err(x) => Err(x),
            Ok((_name, description)) => Ok(Skill {
                name: copy_string(&e.dir_name),
                description,
                file_path: join_skill_md(&e.base_dir),
                base_dir: copy_string(&e.base_dir),
                source: to_owned_string(source),
            }),
        },
    }
}

/// Puts the skills of `entries` into `v` in order, stopping at the first error.
fn load_entries_into(v: &mut Vec<Skill>, entries: &[SkillEntry], source: &str) -> (r: Result<(), SkillError>)
    requires
        names_sorted(skills_view(old(v)@)),
    ensures
        names_sorted(skills_view(final(v)@)),
        match (r, load_entries(skills_view(old(v)@), entries@, source@)) {
            (Ok(()), Ok(ks)) => skills_view(final(v)@) == ks,
            (Err(x), Err(y)) => x@ == y,
            _ => false,
        },
{
    let ghost start = skills_view(v@);
    let mut i: usize = 0;
    assert(entries@.skip(0) =~= entries@);
    while i < entries.len()
        invariant
            0 <= i <= entries.len(),
            start == skills_view(old(v)@),
            names_sorted(skills_view(v@)),
            load_entries(start, entries@, source@) == load_entries(skills_view(v@), entries@.skip(i as int), source@),
        decreases entries.len() - i,
    {
        let ghost rest = entries@.skip(i as int);
        assert(rest[0] == entries@[i as int]);
        assert(rest.drop_first() =~= entries@.skip(i + 1));
        assert(rest.len() > 0);
        let k = match skill_from_entry(&entries[i], source) {
            Err(x) => {
                assert(load_entries(skills_view(v@), rest, source@) == Err::<Seq<SkillV>, SkillErrorV>(x@));
                return Err(x);
            },
            Ok(k) => k,
        };
        insert_sorted(v, k);
        i = i + 1;
    }
    assert(entries@.skip(i as int).len() == 0);
    Ok(())
}

/// Appends the XML entry of `k`.
fn push_xml_entry(out: &mut String, k: &Skill)
    ensures
        final(out)@ == old(out)@ + xml_skill_entry(k@),
{
    let ghost before = out@;
    push_str(out, "  <skill>\n");
    push_str(out, "    <name>");
    push_str(out, xml_escape(k.name.as_str()).as_str());
    push_str(out, "</name>\n");
    push_str(out, "    <description>");
    push_str(out, xml_escape(k.description.as_str()).as_str());
    push_str(out, "</description>\n");
    push_str(out, "    <location>");
    push_str(out, xml_escape(k.file_path.as_str()).as_str());
    push_str(out, "</location>\n");
    push_str(out, "  </skill>\n");
    assert(out@ =~= before + xml_skill_entry(k@));
}

/// Appends a line break and the YAML entry of `k` without its final line break.
fn push_yaml_entry(out: &mut String, k: &Skill)
    ensures
        final(out)@ + seq!['\n'] == old(out)@ + seq!['\n'] + yaml_skill_entry(k@),
{
    let ghost before = out@;
    push_char(out, '\n');
    push_str(out, "  - name: ");
    push_str(out, yaml_escape_scalar(k.name.as_str()).as_str());
    push_char(out, '\n');
    push_str(out, "    description: ");
    push_str(out, yaml_escape_scalar(k.description.as_str()).as_str());
    push_char(out, '\n');
    push_str(out, "    location: ");
    push_str(out, yaml_escape_scalar(k.file_path.as_str()).as_str());
    assert(out@ + seq!['\n'] =~= before + seq!['\n'] + yaml_skill_entry(k@));
}

impl SkillSet {
    #[verifier::type_invariant]
    spec fn names_in_order(self) -> bool {
        names_sorted(skills_view(self.skills@))
    }

    /// An empty skill set.
    pub fn empty() -> (r: SkillSet)
        ensures
            r@ == Seq::<SkillV>::empty(),
    {
        let r = SkillSet { skills: Vec::new() };
        assert(r@ =~= Seq::<SkillV>::empty());
        r
    }

    /// The skills, in name order.
    pub fn skills(&self) -> (r: &[Skill])
        ensures
            skills_view(r@) == self@,
            names_sorted(self@),
    {
        proof {
            use_type_invariant(self);
        }
        self.skills.as_slice()
    }

    /// The number of skills.
    pub fn len(&self) -> (r: usize)
        ensures
            r == self@.len(),
    {
        self.skills.len()
    }

    /// Whether the set holds no skill.
    pub fn is_empty(&self) -> (r: bool)
        ensures
            r == (self@.len() == 0),
    {
        self.skills.len() == 0
    }

    /// Merges `other` into this set; on a name held by both, `other`'s skill wins.
    pub fn merge(&mut self, other: SkillSet)
        ensures
            final(self)@ == insert_all(old(self)@, other@),
            names_sorted(final(self)@),
    {
        proof {
            use_type_invariant(&*self);
            use_type_invariant(&other);
        }
        let mut v: Vec<Skill> = Vec::new();
        std::mem::swap(&mut v, &mut self.skills);
        let SkillSet { skills: mut incoming } = other;
        let ghost start = skills_view(v@);
        let ghost all = skills_view(incoming@);
        while incoming.len() > 0
            invariant
                names_sorted(skills_view(v@)),
                insert_all(start, all) == insert_all(skills_view(v@), skills_view(incoming@)),
            decreases incoming.len(),
        {
            let ghost before = skills_view(incoming@);
            let k = incoming.remove(0);
            assert(skills_view(incoming@) =~= before.drop_first());
            insert_sorted(&mut v, k);
        }
        self.skills = v;
    }

    /// Loads the skills of one scanned directory, labelling each with `source`.
    pub fn load_dir(entries: &[SkillEntry], source: &str) -> (r: Result<SkillSet, SkillError>)
        ensures
            match (r, load_entries(seq![], entries@, source@)) {
                (Ok(set), Ok(ks)) => set@ == ks && names_sorted(ks),
                (Err(x), Err(y)) => x@ == y,
                _ => false,
            },
    {
        let mut v: Vec<Skill> = Vec::new();
        assert(skills_view(v@) =~= Seq::<SkillV>::empty());
        match load_entries_into(&mut v, entries, source) {
            Err(x) => Err(x),
            Ok(()) => Ok(SkillSet { skills: v }),
        }
    }

    /// Loads the skills of several scanned directories, in order: missing
    /// directories are skipped, the `i`th is labelled `dir:i`, and on a name
    /// conflict the later directory wins.
    pub fn load(dirs: &[DirListing]) -> (r: Result<SkillSet, SkillError>)
        ensures
            match (r, load_dirs(seq![], dirs@, 0)) {
                (Ok(set), Ok(ks)) => set@ == ks && names_sorted(ks),
                (Err(x), Err(y)) => x@ == y,
                _ => false,
            },
    {
        let mut acc: Vec<Skill> = Vec::new();
        assert(skills_view(acc@) =~= Seq::<SkillV>::empty());
        let mut i: usize = 0;
        while i < dirs.len()
            invariant
                0 <= i <= dirs.len(),
                names_sorted(skills_view(acc@)),
                load_dirs(seq![], dirs@, 0) == load_dirs(skills_view(acc@), dirs@, i as nat),
            decreases dirs.len() - i,
        {
            match &dirs[i] {
                DirListing::Missing => {},
                DirListing::Unreadable { path, detail } => {
                    return Err(SkillError::Io { path: copy_string(path), detail: copy_string(detail) });
                },
                DirListing::Entries(es) => {
                    let mut label = to_owned_string("dir:");
                    push_decimal(&mut label, i as u64);
                    let mut found: Vec<Skill> = Vec::new();
                    assert(skills_view(found@) =~= Seq::<SkillV>::empty());
                    match load_entries_into(&mut found, es.as_slice(), label.as_str()) {
                        Err(x) => {
                            return Err(x);
                        },
                        Ok(()) => {},
                    }
                    let mut one = SkillSet { skills: acc };
                    one.merge(SkillSet { skills: found });
                    let SkillSet { skills: merged } = one;
                    acc = merged;
                },
            }
            i = i + 1;
        }
        Ok(SkillSet { skills: acc })
    }

    /// The skill index for a system prompt, as the AgentSkills XML block; empty
    /// when there are no skills.
    pub fn format_for_prompt(&self) -> (r: String)
        ensures
            r@ == skills_prompt(self@, SkillPromptFormat::Xml),
    {
        self.format_for_prompt_as(SkillPromptFormat::Xml)
    }

    /// The skill index for a system prompt in the layout `format`; empty when
    /// there are no skills.
    pub fn format_for_prompt_as(&self, format: SkillPromptFormat) -> (r: String)
        ensures
            r@ == skills_prompt(self@, format),
    {
        let ghost ks = self@;
        let n = self.skills.len();
        if n == 0 {
            return String::new();
        }
        match format {
            SkillPromptFormat::Xml => {
                let mut out = to_owned_string("<available_skills>\n");
                let mut i: usize = 0;
                while i < n
                    invariant
                        0 <= i <= n,
                        n == self.skills.len(),
                        ks == skills_view(self.skills@),
                        out@ == "<available_skills>\n"@ + concat_entries(ks.take(i as int), |k: SkillV| xml_skill_entry(k)),
                    decreases n - i,
                {
                    let k = &self.skills[i];
                    push_xml_entry(&mut out, k);
                    proof {
                        assert(ks[i as int] == k@);
                        assert(ks.take(i + 1).drop_last() =~= ks.take(i as int));
                    }
                    i = i + 1;
                }
                assert(ks.take(n as int) =~= ks);
                push_str(&mut out, "</available_skills>");
                out
            },
            SkillPromptFormat::Yaml => {
                let mut out = to_owned_string("available_skills:");
                let mut i: usize = 0;
                while i < n
                    invariant
                        0 <= i <= n,
                        n == self.skills.len(),
                        ks == skills_view(self.skills@),
                        out@ + seq!['\n'] == "available_skills:"@ + seq!['\n'] + concat_entries(
                            ks.take(i as int),
                            |k: SkillV| yaml_skill_entry(k),
                        ),
                    decreases n - i,
                {
                    let k = &self.skills[i];
                    push_yaml_entry(&mut out, k);
                    proof {
                        assert(ks[i as int] == k@);
                        assert(ks.take(i + 1).drop_last() =~= ks.take(i as int));
                    }
                    i = i + 1;
                }
                assert(ks.take(n as int) =~= ks);
                let ghost full = "available_skills:"@ + seq!['\n'] + concat_entries(ks, |k: SkillV| yaml_skill_entry(k));
                assert(out@ =~= full.drop_last());
                out
            },
        }
    }
}

impl Default for SkillSet {
    fn default() -> (r: Self)
        ensures
            r@ == Seq::<SkillV>::empty(),
    {
        SkillSet::empty()
    }
}

} // verus!
