//! The `tool_help` tool: a named tool's extended manual on demand, from a
//! build-time catalog of the installed tools or from a map of manuals.
use vstd::prelude::*;
use crate::context::skills::order::{compare_names, name_lt, NameOrder};
use crate::strs::{chars_of, copy_string, push_str, to_owned_string};
use crate::tools::{text_result, text_tool_result, ToolError, ToolErrorV, ToolResult};
use crate::tools::revert::{debug_quote, debug_str};

verus! {

broadcast use vstd::string::group_string_axioms;

/// What the model is told the tool does.
pub const TOOL_HELP_DESCRIPTION: &'static str = "Fetch the full manual for another tool on demand — its mental model, worked examples, and failure modes. Call this when a tool's short description is not enough to use it correctly (e.g. revert_to_state). Pass the tool's exact name in `tool_name`.";

/// The JSON schema of the tool's parameters.
pub const TOOL_HELP_SCHEMA: &'static str = "{\"properties\":{\"tool_name\":{\"description\":\"The exact name of the tool whose manual you want (e.g. \\\"revert_to_state\\\").\",\"type\":\"string\"}},\"required\":[\"tool_name\"],\"type\":\"object\"}";

/// The short manual of `revert_to_state`.
pub const REVERT_HELP: &'static str = "revert_to_state — rewind the conversation tree and resume forward.\n\nMENTAL MODEL\n  The conversation is a TREE of nodes. Each assistant/tool step is a node,\n  tagged inline in the messages as [n0], [n1], [n2], … in order. Those inline\n  tags ARE the nodes — the `step` argument names one of them. The `[nN]` tags\n  are assigned by the system as it records each step; you only READ them to\n  pick a `step`. Do NOT write `[nN]` tags yourself in your replies — the system\n  prepends the next one for you; emitting your own just adds a wrong, stale id.\n\nWHAT IT DOES\n  Naming a node X in `step` makes it the new tip. The simple contract:\n    - SHRINK: every node strictly after X is dropped from your active context\n      (its body — even a heavy parallel tool exchange — leaves your context, so\n      your budget gets smaller). The dropped messages stay in the forensic\n      session log; only your working context changes.\n    - SUMMARY at X: for `completion`/`step-summary` the `summary` is ADDED to X\n      AFTER X's original content (X is KEPT); for `failure`/`tangent` the summary\n      REPLACES X's content (the abandoned body is gone, the lesson takes its\n      place).\n    - CLEAN: if a dropped node leaves an orphaned tool-call behind on a kept\n      node, that call is removed too, so the rebuilt context never dangles.\n  If nothing comes after X (you're sealing the step you just finished), nothing\n  shrinks — just continue.\n\nHOW TO CHOOSE THE NODE\n  Read the [nN] tags and pick the node JUST BEFORE the branch you want to\n  discard. Reverting to n0 discards the entire conversation back to the first\n  node — only do that to restart from scratch.\n\nAFTER REVERTING\n  CONTINUE FORWARD with your new approach from X. Do NOT repeat the steps you\n  just abandoned — that is the loop trap. The rebuilt context shows your pinned\n  summary so you know what not to retry.\n\nCATEGORIES\n  failure = a dead-end branch to learn from (summary REPLACES X's content);\n  tangent = a finished exploration to fold back (summary REPLACES X's content);\n  completion = a sealed sub-task (summary ADDED after X's kept content);\n  step-summary = a checkpoint on a long ongoing trunk (summary ADDED after X's\n  kept content).";

/// The short manual of `prun` and `prun_with_memo`.
pub const PRUN_HELP: &'static str = "prun / prun_with_memo — model-directed context pruning.\n\nWHAT IT DOES\n  prun(tokens) silently removes the oldest in-run context entries to free up\n  roughly `tokens` of budget. prun_with_memo(tokens, memo) does the same but\n  leaves your `memo` summary in place of what was removed, so the gist survives.\n\nGUARANTEES\n  User messages are NEVER pruned. Pruned content is preserved in the forensic\n  session log (a PrunRecord) — only your active working context shrinks.\n\nWHEN TO USE\n  Use when older turns are no longer load-bearing and the context is getting\n  long. Prefer prun_with_memo when the removed span carries a conclusion you\n  still need to remember; use plain prun when the span is pure noise.";

/// A tool's entry in the build-time catalog: its detailed manual, if it has
/// one, and the JSON text of its full parameters schema.
pub struct ToolCatalogEntry {
    pub detailed: Option<String>,
    pub schema: String,
}

/// The help tool: manuals by tool name, and the catalog once installed; both
/// are kept in name order with no name twice.
pub struct ToolHelpTool {
    help: Vec<(String, String)>,
    catalog: Option<Vec<(String, ToolCatalogEntry)>>,
}

/// The value of a help tool: its manuals, and its catalog if installed.
pub struct ToolHelpV {
    pub help: Seq<(Seq<char>, Seq<char>)>,
    pub catalog: Option<Seq<(Seq<char>, ToolCatalogEntry)>>,
}

pub open spec fn help_view(v: Seq<(String, String)>) -> Seq<(Seq<char>, Seq<char>)> {
    v.map_values(|p: (String, String)| (p.0@, p.1@))
}

pub open spec fn catalog_view(v: Seq<(String, ToolCatalogEntry)>) -> Seq<(Seq<char>, ToolCatalogEntry)> {
    v.map_values(|p: (String, ToolCatalogEntry)| (p.0@, p.1))
}

impl View for ToolHelpTool {
    type V = ToolHelpV;

    closed spec fn view(&self) -> ToolHelpV {
        ToolHelpV {
            help: help_view(self.help@),
            catalog: match self.catalog {
                Some(c) => Some(catalog_view(c@)),
                None => None,
            },
        }
    }
}

/// How many entries of `s`, from the front, sort before `k`.
pub open spec fn below<V>(s: Seq<(Seq<char>, V)>, k: Seq<char>) -> nat
    decreases s.len(),
{
    if s.len() == 0 {
        0
    } else if name_lt(s[0].0, k) {
        1 + below(s.drop_first(), k)
    } else {
        0
    }
}

/// `s` with `v` under `k`: replacing the entry of `k`, or put where `k` sorts.
pub open spec fn put_entry<V>(s: Seq<(Seq<char>, V)>, k: Seq<char>, v: V) -> Seq<(Seq<char>, V)> {
    let p = below(s, k) as int;
    if p < s.len() && s[p].0 == k {
        s.update(p, (k, v))
    } else {
        s.insert(p, (k, v))
    }
}

/// The entries of `items` put into `s` one after the other.
pub open spec fn put_all<V>(s: Seq<(Seq<char>, V)>, items: Seq<(Seq<char>, V)>) -> Seq<(Seq<char>, V)>
    decreases items.len(),
{
    if items.len() == 0 {
        s
    } else {
        put_all(put_entry(s, items[0].0, items[0].1), items.drop_first())
    }
}

/// The value under `k`: that of the first entry with key `k`.
pub open spec fn find_entry<V>(s: Seq<(Seq<char>, V)>, k: Seq<char>) -> Option<V>
    decreases s.len(),
{
    if s.len() == 0 {
        None
    } else if s[0].0 == k {
        Some(s[0].1)
    } else {
        find_entry(s.drop_first(), k)
    }
}

/// The keys of `s`, in order.
pub open spec fn keys_of<V>(s: Seq<(Seq<char>, V)>) -> Seq<Seq<char>> {
    s.map_values(|p: (Seq<char>, V)| p.0)
}

/// The names joined with `, `.
pub open spec fn join_names(ns: Seq<Seq<char>>) -> Seq<char>
    decreases ns.len(),
{
    if ns.len() == 0 {
        seq![]
    } else if ns.len() == 1 {
        ns[0]
    } else {
        join_names(ns.drop_last()) + ", "@ + ns.last()
    }
}

/// The names of the tools with a manual: the keys of the manuals with the
/// catalog's keys put among them in name order.
pub open spec fn available(h: ToolHelpV) -> Seq<Seq<char>> {
    let hk = h.help.map_values(|p: (Seq<char>, Seq<char>)| (p.0, ()));
    let all = match h.catalog {
        Some(c) => put_all(hk, c.map_values(|p: (Seq<char>, ToolCatalogEntry)| (p.0, ()))),
        None => hk,
    };
    keys_of(all)
}

/// The text the tool answers for `name`.
pub open spec fn help_text(h: ToolHelpV, name: Seq<char>) -> Seq<char> {
    let entry = match h.catalog {
        Some(c) => find_entry(c, name),
        None => None,
    };
    match entry {
        Some(e) => {
            let body = match e.detailed {
                Some(d) => Some(d@),
                None => find_entry(h.help, name),
            };
            (match body {
                Some(b) => b + "\n\n"@,
                None => seq![],
            }) + "PARAMETERS (JSON Schema):\n"@ + match pretty_json(e.schema@) {
                Some(p) => p,
                None => e.schema@,
            }
        },
        None => match find_entry(h.help, name) {
            Some(m) => m,
            None => {
                let av = available(h);
                "No extended manual is registered for "@ + debug_str(name) + ". Tools with a manual: "@
                    + (if av.len() == 0 { "(none)"@ } else { join_names(av) }) + "."@
            },
        },
    }
}

/// The indented JSON rendering of the JSON text `t`, as
/// `serde_json::to_string_pretty` renders its parsed value; none when `t` is
/// not JSON.
pub uninterp spec fn pretty_json(t: Seq<char>) -> Option<Seq<char>>;

/// Parses `t` with `serde_json::from_str` and renders the value with
/// `serde_json::to_string_pretty`; `None` when either fails.
#[verifier::external_body]
fn render_pretty(t: &str) -> (r: Option<String>)
    ensures
        match r {
            Some(x) => pretty_json(t@) == Some(x@),
            None => pretty_json(t@) is None,
        },
{
    match serde_json::from_str::<serde_json::Value>(t) {
        Ok(v) => serde_json::to_string_pretty(&v).ok(),
        Err(_) => None,
    }
}

proof fn lemma_below_bound<V>(s: Seq<(Seq<char>, V)>, k: Seq<char>)
    ensures
        below(s, k) <= s.len(),
        forall|i: int| 0 <= i < below(s, k) ==> name_lt(#[trigger] s[i].0, k),
        below(s, k) < s.len() ==> !name_lt(s[below(s, k) as int].0, k),
    decreases s.len(),
{
    if s.len() > 0 && name_lt(s[0].0, k) {
        lemma_below_bound(s.drop_first(), k);
        assert forall|i: int| 0 <= i < below(s, k) implies name_lt(#[trigger] s[i].0, k) by {
            if i > 0 {
                assert(s[i] == s.drop_first()[i - 1]);
            }
        }
    }
}

/// Puts `v` under `k` in `s`.
fn put_help(s: &mut Vec<(String, String)>, k: String, v: String)
    ensures
        help_view(final(s)@) == put_entry(help_view(old(s)@), k@, v@),
{
    let ghost hv = help_view(s@);
    let kc = chars_of(k.as_str());
    let mut p: usize = 0;
    let mut same = false;
    proof {
        assert(hv.skip(0) =~= hv);
    }
    while p < s.len()
        invariant_except_break
            below(hv, k@) == p + below(hv.skip(p as int), k@),
            !same,
        invariant
            0 <= p <= s.len(),
            hv == help_view(s@),
            kc@ == k@,
        ensures
            below(hv, k@) == p,
            same == (p < s.len() && hv[p as int].0 == k@),
        decreases s.len() - p,
    {
        let e = chars_of(s[p].0.as_str());
        assert(hv.skip(p as int)[0] == hv[p as int]);
        assert(hv.skip(p as int).drop_first() =~= hv.skip(p + 1));
        match compare_names(&e, &kc) {
            NameOrder::Before => {
                p = p + 1;
            },
            NameOrder::Same => {
                proof {
                    crate::context::skills::order::lemma_name_lt_irreflexive(k@);
                }
                same = true;
                break;
            },
            NameOrder::After => {
                proof {
                    crate::context::skills::order::lemma_name_lt_asymmetric(k@, e@);
                    crate::context::skills::order::lemma_name_lt_irreflexive(k@);
                }
                break;
            },
        }
    }
    let ghost kv = k@;
    let ghost vv = v@;
    if same {
        let _old = s.remove(p);
        s.insert(p, (k, v));
        assert(help_view(s@) =~= hv.update(p as int, (kv, vv)));
    } else {
        s.insert(p, (k, v));
        assert(help_view(s@) =~= hv.insert(p as int, (kv, vv)));
    }
}

/// Puts `v` under `k` in the catalog `s`.
fn put_catalog(s: &mut Vec<(String, ToolCatalogEntry)>, k: String, v: ToolCatalogEntry)
    ensures
        catalog_view(final(s)@) == put_entry(catalog_view(old(s)@), k@, v),
{
    let ghost cv = catalog_view(s@);
    let kc = chars_of(k.as_str());
    let mut p: usize = 0;
    let mut same = false;
    proof {
        assert(cv.skip(0) =~= cv);
    }
    while p < s.len()
        invariant_except_break
            below(cv, k@) == p + below(cv.skip(p as int), k@),
            !same,
        invariant
            0 <= p <= s.len(),
            cv == catalog_view(s@),
            kc@ == k@,
        ensures
            below(cv, k@) == p,
            same == (p < s.len() && cv[p as int].0 == k@),
        decreases s.len() - p,
    {
        let e = chars_of(s[p].0.as_str());
        assert(cv.skip(p as int)[0] == cv[p as int]);
        assert(cv.skip(p as int).drop_first() =~= cv.skip(p + 1));
        match compare_names(&e, &kc) {
            NameOrder::Before => {
                p = p + 1;
            },
            NameOrder::Same => {
                proof {
                    crate::context::skills::order::lemma_name_lt_irreflexive(k@);
                }
                same = true;
                break;
            },
            NameOrder::After => {
                proof {
                    crate::context::skills::order::lemma_name_lt_asymmetric(k@, e@);
                    crate::context::skills::order::lemma_name_lt_irreflexive(k@);
                }
                break;
            },
        }
    }
    let ghost kv = k@;
    if same {
        let _old = s.remove(p);
        s.insert(p, (k, v));
        assert(catalog_view(s@) =~= cv.update(p as int, (kv, v)));
    } else {
        s.insert(p, (k, v));
        assert(catalog_view(s@) =~= cv.insert(p as int, (kv, v)));
    }
}

fn help_of<'a>(s: &'a Vec<(String, String)>, k: &str) -> (r: Option<&'a String>)
    ensures
        match r {
            Some(x) => find_entry(help_view(s@), k@) == Some(x@),
            None => find_entry(help_view(s@), k@) is None,
        },
{
    let ghost hv = help_view(s@);
    let mut i: usize = 0;
    assert(hv.skip(0) =~= hv);
    while i < s.len()
        invariant
            0 <= i <= s.len(),
            hv == help_view(s@),
            find_entry(hv, k@) == find_entry(hv.skip(i as int), k@),
        decreases s.len() - i,
    {
        assert(hv.skip(i as int)[0] == hv[i as int]);
        assert(hv.skip(i as int).drop_first() =~= hv.skip(i + 1));
        if crate::strs::str_eq(s[i].0.as_str(), k) {
            return Some(&s[i].1);
        }
        i = i + 1;
    }
    assert(hv.skip(s.len() as int) =~= seq![]);
    None
}

fn entry_of<'a>(s: &'a Vec<(String, ToolCatalogEntry)>, k: &str) -> (r: Option<&'a ToolCatalogEntry>)
    ensures
        match r {
            Some(x) => find_entry(catalog_view(s@), k@) == Some(*x),
            None => find_entry(catalog_view(s@), k@) is None,
        },
{
    let ghost cv = catalog_view(s@);
    let mut i: usize = 0;
    assert(cv.skip(0) =~= cv);
    while i < s.len()
        invariant
            0 <= i <= s.len(),
            cv == catalog_view(s@),
            find_entry(cv, k@) == find_entry(cv.skip(i as int), k@),
        decreases s.len() - i,
    {
        assert(cv.skip(i as int)[0] == cv[i as int]);
        assert(cv.skip(i as int).drop_first() =~= cv.skip(i + 1));
        if crate::strs::str_eq(s[i].0.as_str(), k) {
            return Some(&s[i].1);
        }
        i = i + 1;
    }
    assert(cv.skip(s.len() as int) =~= seq![]);
    None
}

/// The key-only entries of a list of keys.
pub open spec fn unit_entries(ks: Seq<Seq<char>>) -> Seq<(Seq<char>, ())> {
    ks.map_values(|k: Seq<char>| (k, ()))
}

fn put_name(s: &mut Vec<String>, k: &String)
    ensures
        unit_entries(crate::types::strs_view(final(s)@)) == put_entry(unit_entries(crate::types::strs_view(old(s)@)), k@, ()),
{
    let ghost uv = unit_entries(crate::types::strs_view(s@));
    let kc = chars_of(k.as_str());
    let mut p: usize = 0;
    let mut same = false;
    proof {
        assert(uv.skip(0) =~= uv);
    }
    while p < s.len()
        invariant_except_break
            below(uv, k@) == p + below(uv.skip(p as int), k@),
            !same,
        invariant
            0 <= p <= s.len(),
            uv == unit_entries(crate::types::strs_view(s@)),
            kc@ == k@,
        ensures
            below(uv, k@) == p,
            same == (p < s.len() && uv[p as int].0 == k@),
        decreases s.len() - p,
    {
        let e = chars_of(s[p].as_str());
        assert(uv.skip(p as int)[0] == uv[p as int]);
        assert(uv.skip(p as int).drop_first() =~= uv.skip(p + 1));
        match compare_names(&e, &kc) {
            NameOrder::Before => {
                p = p + 1;
            },
            NameOrder::Same => {
                proof {
                    crate::context::skills::order::lemma_name_lt_irreflexive(k@);
                }
                same = true;
                break;
            },
            NameOrder::After => {
                proof {
                    crate::context::skills::order::lemma_name_lt_asymmetric(k@, e@);
                    crate::context::skills::order::lemma_name_lt_irreflexive(k@);
                }
                break;
            },
        }
    }
    let ghost kv = k@;
    if same {
        assert(uv.update(p as int, (kv, ())) =~= uv);
    } else {
        s.insert(p, copy_string(k));
        assert(unit_entries(crate::types::strs_view(s@)) =~= uv.insert(p as int, (kv, ())));
    }
}

fn push_joined_names(out: &mut String, ns: &Vec<String>)
    ensures
        final(out)@ == old(out)@ + join_names(crate::types::strs_view(ns@)),
{
    let ghost head = out@;
    let ghost nv = crate::types::strs_view(ns@);
    let mut i: usize = 0;
    while i < ns.len()
        invariant
            0 <= i <= ns.len(),
            nv == crate::types::strs_view(ns@),
            out@ == head + join_names(nv.take(i as int)),
        decreases ns.len() - i,
    {
        if i > 0 {
            push_str(out, ", ");
        }
        push_str(out, ns[i].as_str());
        assert(nv.take(i + 1).drop_last() =~= nv.take(i as int));
        assert(out@ =~= head + join_names(nv.take(i + 1)));
        i = i + 1;
    }
    assert(nv.take(ns.len() as int) =~= nv);
}

impl ToolHelpTool {
    /// A help tool with the given manuals (a later manual for the same tool
    /// replaces an earlier one) and no catalog.
    pub fn new(help: Vec<(String, String)>) -> (r: ToolHelpTool)
        ensures
            r@ == (ToolHelpV { help: put_all(Seq::empty(), help_view(help@)), catalog: None }),
    {
        let ghost all = help_view(help@);
        let mut h: Vec<(String, String)> = Vec::new();
        let mut rest = help;
        assert(help_view(h@) =~= Seq::<(Seq<char>, Seq<char>)>::empty());
        while rest.len() > 0
            invariant
                put_all(Seq::empty(), all) == put_all(help_view(h@), help_view(rest@)),
            decreases rest.len(),
        {
            let ghost rv = help_view(rest@);
            let (k, v) = rest.remove(0);
            assert(help_view(rest@) =~= rv.drop_first());
            put_help(&mut h, k, v);
        }
        ToolHelpTool { help: h, catalog: None }
    }

    /// The short manuals of the built-in tools: `revert_to_state`, `prun` and
    /// `prun_with_memo`.
    pub fn with_default_help() -> (r: ToolHelpTool)
        ensures
            r@ == (ToolHelpV {
                help: put_entry(
                    put_entry(put_entry(Seq::empty(), "revert_to_state"@, REVERT_HELP@), "prun"@, PRUN_HELP@),
                    "prun_with_memo"@,
                    PRUN_HELP@,
                ),
                catalog: None,
            }),
    {
        let mut h: Vec<(String, String)> = Vec::new();
        assert(help_view(h@) =~= Seq::<(Seq<char>, Seq<char>)>::empty());
        put_help(&mut h, to_owned_string("revert_to_state"), to_owned_string(REVERT_HELP));
        put_help(&mut h, to_owned_string("prun"), to_owned_string(PRUN_HELP));
        put_help(&mut h, to_owned_string("prun_with_memo"), to_owned_string(PRUN_HELP));
        ToolHelpTool { help: h, catalog: None }
    }

    /// Adds or replaces one tool's manual.
    pub fn with_help(self, tool_name: String, text: String) -> (r: ToolHelpTool)
        ensures
            r@ == (ToolHelpV { help: put_entry(self@.help, tool_name@, text@), ..self@ }),
    {
        let ToolHelpTool { help, catalog } = self;
        let mut h = help;
        put_help(&mut h, tool_name, text);
        ToolHelpTool { help: h, catalog }
    }

    /// Installs the catalog (a later entry for the same tool replaces an earlier one).
    pub fn with_catalog(self, snapshot: Vec<(String, ToolCatalogEntry)>) -> (r: ToolHelpTool)
        ensures
            r@ == (ToolHelpV { catalog: Some(put_all(Seq::empty(), catalog_view(snapshot@))), ..self@ }),
    {
        let ghost all = catalog_view(snapshot@);
        let ToolHelpTool { help, catalog: _ } = self;
        let mut c: Vec<(String, ToolCatalogEntry)> = Vec::new();
        let mut rest = snapshot;
        assert(catalog_view(c@) =~= Seq::<(Seq<char>, ToolCatalogEntry)>::empty());
        while rest.len() > 0
            invariant
                put_all(Seq::empty(), all) == put_all(catalog_view(c@), catalog_view(rest@)),
            decreases rest.len(),
        {
            let ghost rv = catalog_view(rest@);
            let (k, v) = rest.remove(0);
            assert(catalog_view(rest@) =~= rv.drop_first());
            put_catalog(&mut c, k, v);
        }
        ToolHelpTool { help, catalog: Some(c) }
    }

    /// The tool's name.
    pub fn name(&self) -> (r: &'static str)
        ensures
            r@ == "tool_help"@,
    {
        "tool_help"
    }

    /// The tool's label.
    pub fn label(&self) -> (r: &'static str)
        ensures
            r@ == "Tool Help"@,
    {
        "Tool Help"
    }

    /// What the model is told the tool does.
    pub fn description(&self) -> (r: &'static str)
        ensures
            r@ == TOOL_HELP_DESCRIPTION@,
    {
        TOOL_HELP_DESCRIPTION
    }

    /// The JSON schema of the tool's parameters.
    pub fn parameters_schema(&self) -> (r: &'static str)
        ensures
            r@ == TOOL_HELP_SCHEMA@,
    {
        TOOL_HELP_SCHEMA
    }

    fn available_names(&self) -> (r: Vec<String>)
        ensures
            crate::types::strs_view(r@) == available(self@),
    {
        let ghost hk = self@.help.map_values(|p: (Seq<char>, Seq<char>)| (p.0, ()));
        let mut names: Vec<String> = Vec::new();
        let mut i: usize = 0;
        while i < self.help.len()
            invariant
                0 <= i <= self.help.len(),
                hk == self@.help.map_values(|p: (Seq<char>, Seq<char>)| (p.0, ())),
                self@.help == help_view(self.help@),
                unit_entries(crate::types::strs_view(names@)) == hk.take(i as int),
            decreases self.help.len() - i,
        {
            let ghost before = crate::types::strs_view(names@);
            names.push(copy_string(&self.help[i].0));
            assert(crate::types::strs_view(names@) =~= before.push(self.help@[i as int].0@));
            assert(help_view(self.help@)[i as int] == (self.help@[i as int].0@, self.help@[i as int].1@));
            assert(hk[i as int] == (self.help@[i as int].0@, ()));
            assert(hk.take(i + 1) =~= hk.take(i as int).push(hk[i as int]));
            assert(unit_entries(crate::types::strs_view(names@)) =~= hk.take(i + 1));
            i = i + 1;
        }
        assert(hk.take(self.help.len() as int) =~= hk);
        match &self.catalog {
            None => {
                assert(keys_of(hk) =~= crate::types::strs_view(names@));
            },
            Some(c) => {
                let ghost cu = catalog_view(c@).map_values(|p: (Seq<char>, ToolCatalogEntry)| (p.0, ()));
                let mut j: usize = 0;
                assert(cu.skip(0) =~= cu);
                while j < c.len()
                    invariant
                        0 <= j <= c.len(),
                        cu == catalog_view(c@).map_values(|p: (Seq<char>, ToolCatalogEntry)| (p.0, ())),
                        put_all(hk, cu) == put_all(unit_entries(crate::types::strs_view(names@)), cu.skip(j as int)),
                    decreases c.len() - j,
                {
                    assert(cu.skip(j as int)[0] == (c@[j as int].0@, ()));
                    assert(cu.skip(j as int).drop_first() =~= cu.skip(j + 1));
                    put_name(&mut names, &c[j].0);
                    j = j + 1;
                }
                assert(cu.skip(c.len() as int) =~= seq![]);
                assert(keys_of(unit_entries(crate::types::strs_view(names@))) =~= crate::types::strs_view(names@));
            },
        }
        names
    }

    /// The manual of `tool_name`: from the catalog (its detailed manual, or
    /// else its manual, then its full parameters schema), else its manual,
    /// else a note naming the tools that have one.
    pub fn execute(&self, tool_name: Option<&str>) -> (r: Result<ToolResult, ToolError>)
        ensures
            match tool_name {
                None => r matches Err(e) && e@ == ToolErrorV::InvalidArgs("tool_name is required"@),
                Some(n) => r matches Ok(t) && text_result(t, help_text(self@, n@), "null"@),
            },
    {
        let name = match tool_name {
            None => {
                return Err(ToolError::InvalidArgs(to_owned_string("tool_name is required")));
            },
            Some(n) => n,
        };
        let entry = match &self.catalog {
            Some(c) => entry_of(c, name),
            None => None,
        };
        let text = match entry {
            Some(e) => {
                let mut out = String::new();
                let body: Option<&String> = match &e.detailed {
                    Some(d) => Some(d),
                    None => help_of(&self.help, name),
                };
                if let Some(b) = body {
                    push_str(&mut out, b.as_str());
                    push_str(&mut out, "\n\n");
                }
                push_str(&mut out, "PARAMETERS (JSON Schema):\n");
                match render_pretty(e.schema.as_str()) {
                    Some(p) => push_str(&mut out, p.as_str()),
                    None => push_str(&mut out, e.schema.as_str()),
                }
                out
            },
            None => match help_of(&self.help, name) {
                Some(m) => copy_string(m),
                None => {
                    let av = self.available_names();
                    let mut out = to_owned_string("No extended manual is registered for ");
                    push_str(&mut out, debug_quote(name).as_str());
                    push_str(&mut out, ". Tools with a manual: ");
                    if av.len() == 0 {
                        push_str(&mut out, "(none)");
                    } else {
                        push_joined_names(&mut out, &av);
                    }
                    push_str(&mut out, ".");
                    out
                },
            },
        };
        assert(text@ == help_text(self@, name@));
        Ok(text_tool_result(text, to_owned_string("null")))
    }
}

} // verus!
