//! The revert tool: the model asks to rewind the conversation tree to an
//! earlier node; the request is checked here and applied by the agent loop
//! between turns.
use vstd::prelude::*;
use crate::types::{NodeId, RevertCategory, parse_node, parse_category, node_tag, category_debug};
use crate::strs::{push_str, to_owned_string};
use crate::tools::{ToolError, ToolErrorV, ToolResult, text_result, text_tool_result};

verus! {

broadcast use vstd::string::group_string_axioms;

/// A string as Rust's debug formatting shows it: quoted, with escapes.
pub uninterp spec fn debug_str(s: Seq<char>) -> Seq<char>;

/// `format!("{:?}", s)` for a string slice.
#[verifier::external_body]
pub(crate) fn debug_quote(s: &str) -> (r: String)
    ensures
        r@ == debug_str(s@),
{
    format!("{:?}", s)
}

/// What the model is told the revert tool does.
pub const REVERT_DESCRIPTION: &'static str = "Rewind the conversation to an earlier point and resume from there. The conversation is a TREE of nodes: each assistant/tool step is a node, tagged inline in the messages as [n0], [n1], [n2], … in order — those tags ARE the nodes, and the `step` arg names one of them. Naming a node in `step` makes it the new tip: every node AFTER it is dropped from your active context (the dropped messages stay in the forensic session log; only your working context changes). After reverting, CONTINUE FORWARD with your new approach from that node — do NOT repeat the steps you just abandoned (the `summary` you supply is pinned to the target node to remind you what was tried). Use when a branch failed (failure), an exploration is finished (tangent), a sub-task is sealed (completion), or a long trunk needs a checkpoint (step-summary). For the full tree model and worked examples, call tool_help(\"revert_to_state\").";

/// The JSON schema of the revert tool's arguments.
pub const REVERT_SCHEMA: &'static str = "{\"properties\":{\"category\":{\"description\":\"failure = dead-end branch to learn from; tangent = finished exploration to fold back; completion = sealed sub-task outcome; step-summary = checkpoint a long ongoing trunk.\",\"enum\":[\"failure\",\"tangent\",\"completion\",\"step-summary\"],\"type\":\"string\"},\"step\":{\"description\":\"The node to rewind to — its inline tag (e.g. \\\"n10\\\") or bare integer (\\\"10\\\"). Read the [nN] tags in the conversation and choose the node JUST BEFORE the branch you want to discard. Reverting to n0 discards the entire conversation back to the first node — only do that to restart from scratch. Everything after the chosen node leaves your active context.\",\"type\":\"string\"},\"summary\":{\"description\":\"Optional one-line summary attached as an annotation on the target node — what to remember about the abandoned branch so the next turn carries the lesson forward without the abandoned chatter.\",\"type\":\"string\"}},\"required\":[\"category\",\"step\"],\"type\":\"object\"}";

/// A rewind the model asked for.
#[derive(Debug)]
pub struct RevertRequest {
    pub category: RevertCategory,
    pub target: NodeId,
    pub summary: Option<String>,
}

/// A rewind that was applied: the nodes it dropped from the active context.
#[derive(Debug)]
pub struct RevertRecord {
    pub category: RevertCategory,
    pub target: NodeId,
    pub abandoned_node_ids: Vec<NodeId>,
    pub summary: Option<String>,
}

/// The revert tool. The queue its requests go to is held by the caller.
pub struct RevertTool;

/// The acknowledgement the model sees for a recorded request.
pub open spec fn revert_ack(category: RevertCategory, target: NodeId, summary: Option<Seq<char>>) -> Seq<char> {
    match summary {
        Some(s) => "Revert request recorded: category="@ + category_debug(category) + ", target="@ + node_tag(target)
            + ", summary="@ + debug_str(s) + ". The trunk will be rebuilt from this node before the next turn."@,
        None => "Revert request recorded: category="@ + category_debug(category) + ", target="@ + node_tag(target)
            + ". The trunk will be rebuilt from this node before the next turn."@,
    }
}

/// The value of an optional string.
pub open spec fn opt_s(s: Option<String>) -> Option<Seq<char>> {
    match s {
        Some(x) => Some(x@),
        None => None,
    }
}

/// The category and node a call names, or the complaint about its arguments.
pub open spec fn revert_args(category: Option<Seq<char>>, step: Option<Seq<char>>) -> Result<(RevertCategory, NodeId), Seq<char>> {
    match category {
        None => Err("category is required"@),
        Some(c) => match parse_category(c) {
            None => Err("category must be one of failure | tangent | completion | step-summary; got "@ + debug_str(c)),
            Some(cat) => match step {
                None => Err("step is required"@),
                Some(st) => match parse_node(st) {
                    None => Err("step must be a node identifier like \"n12\" or \"12\"; got "@ + debug_str(st)),
                    Some(node) => Ok((cat, node)),
                },
            },
        },
    }
}

impl RevertTool {
    /// The revert tool.
    pub fn new() -> (r: RevertTool) {
        RevertTool
    }

    /// The tool's name.
    pub fn name(&self) -> (r: &'static str)
        ensures
            r@ == "revert_to_state"@,
    {
        "revert_to_state"
    }

    /// The tool's label.
    pub fn label(&self) -> (r: &'static str)
        ensures
            r@ == "Revert to State"@,
    {
        "Revert to State"
    }

    /// What the model is told the tool does.
    pub fn description(&self) -> (r: &'static str)
        ensures
            r@ == REVERT_DESCRIPTION@,
    {
        REVERT_DESCRIPTION
    }

    /// The JSON schema of the tool's arguments, as JSON text.
    pub fn parameters_schema(&self) -> (r: &'static str)
        ensures
            r@ == REVERT_SCHEMA@,
    {
        REVERT_SCHEMA
    }

    /// Checks a call's arguments: a known category (kebab-case), a node tag
    /// (`n12` or `12`), and an optional summary. On success, the request to
    /// queue and the acknowledgement for the model.
    pub fn accept(&self, category: Option<String>, step: Option<String>, summary: Option<String>) -> (r: Result<(RevertRequest, ToolResult), ToolError>)
        ensures
            match revert_args(opt_s(category), opt_s(step)) {
                Err(m) => r matches Err(e) && e@ == ToolErrorV::InvalidArgs(m),
                Ok((cat, node)) => r matches Ok((req, res)) && req.category == cat && req.target == node
                    && opt_s(req.summary) == opt_s(summary)
                    && text_result(res, revert_ack(cat, node, opt_s(summary)), "null"@),
            },
    {
        let c = match category {
            None => {
                return Err(ToolError::InvalidArgs(to_owned_string("category is required")));
            },
            Some(c) => c,
        };
        let cat = match RevertCategory::parse(c.as_str()) {
            None => {
                let mut m = to_owned_string("category must be one of failure | tangent | completion | step-summary; got ");
                push_str(&mut m, debug_quote(c.as_str()).as_str());
                return Err(ToolError::InvalidArgs(m));
            },
            Some(x) => x,
        };
        let s = match step {
            None => {
                return Err(ToolError::InvalidArgs(to_owned_string("step is required")));
            },
            Some(s) => s,
        };
        let node = match NodeId::parse(s.as_str()) {
            None => {
                let mut m = to_owned_string("step must be a node identifier like \"n12\" or \"12\"; got ");
                push_str(&mut m, debug_quote(s.as_str()).as_str());
                return Err(ToolError::InvalidArgs(m));
            },
            Some(n) => n,
        };
        let mut ack = to_owned_string("Revert request recorded: category=");
        push_str(&mut ack, cat.debug_name());
        push_str(&mut ack, ", target=");
        push_str(&mut ack, node.to_string().as_str());
        match &summary {
            Some(x) => {
                push_str(&mut ack, ", summary=");
                push_str(&mut ack, debug_quote(x.as_str()).as_str());
            },
            None => {},
        }
        push_str(&mut ack, ". The trunk will be rebuilt from this node before the next turn.");
        let res = text_tool_result(ack, to_owned_string("null"));
        Ok((RevertRequest { category: cat, target: node, summary }, res))
    }
}

} // verus!
