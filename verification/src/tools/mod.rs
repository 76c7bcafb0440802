//! The built-in tools: their registry, the decisions of the bash and search
//! tools around the processes they run, and the deferred pruning and revert
//! requests.
pub mod registry;
pub mod bash;
pub mod search;
pub mod prun;
pub mod revert;
pub mod tool_help;

use vstd::prelude::*;
use crate::types::{Content, ContentV, contents_view};

verus! {

/// A tool an agent can be given. The built-in tools are named; a tool of the
/// caller's own is known by the handle the caller chose for it.
#[derive(PartialEq, Eq, Structural, Clone, Copy, Debug)]
pub enum ToolKind {
    Bash,
    ReadFile,
    WriteFile,
    EditFile,
    ListFiles,
    Search,
    Custom(u64),
}

/// The six built-in tools, in their canonical order.
pub open spec fn builtin_tools() -> Seq<ToolKind> {
    seq![ToolKind::Bash, ToolKind::ReadFile, ToolKind::WriteFile, ToolKind::EditFile, ToolKind::ListFiles, ToolKind::Search]
}

/// The standard toolkit of a coding agent: bash, read, write, edit, list and search.
pub fn default_tools() -> (r: Vec<ToolKind>)
    ensures
        r@ == builtin_tools(),
{
    let r = vec![ToolKind::Bash, ToolKind::ReadFile, ToolKind::WriteFile, ToolKind::EditFile, ToolKind::ListFiles, ToolKind::Search];
    assert(r@ =~= builtin_tools());
    r
}

/// Why a tool call failed.
#[derive(Debug)]
pub enum ToolError {
    /// The arguments were missing or malformed.
    InvalidArgs(String),
    /// The tool ran and failed, or refused to run.
    Failed(String),
    /// The call was cancelled.
    Cancelled,
}

/// The value of a [`ToolError`].
pub enum ToolErrorV {
    InvalidArgs(Seq<char>),
    Failed(Seq<char>),
    Cancelled,
}

impl View for ToolError {
    type V = ToolErrorV;

    open spec fn view(&self) -> ToolErrorV {
        match self {
            ToolError::InvalidArgs(m) => ToolErrorV::InvalidArgs(m@),
            ToolError::Failed(m) => ToolErrorV::Failed(m@),
            ToolError::Cancelled => ToolErrorV::Cancelled,
        }
    }
}

/// What a tool call produced: content for the model, and details for the
/// caller as JSON text.
#[derive(Debug)]
pub struct ToolResult {
    pub content: Vec<Content>,
    /// The compact JSON text of the details (`null` when there are none).
    pub details: String,
    /// The loop a tool spawned, if any.
    pub child_loop_id: Option<String>,
}

/// A tool result holding one text block, with the given details and no child loop.
pub open spec fn text_result(r: ToolResult, text: Seq<char>, details: Seq<char>) -> bool {
    &&& contents_view(r.content@) == seq![ContentV::Text { text }]
    &&& r.details@ == details
    &&& r.child_loop_id is None
}

/// A tool result holding one text block.
pub fn text_tool_result(text: String, details: String) -> (r: ToolResult)
    ensures
        text_result(r, text@, details@),
{
    let ghost t = text@;
    let mut content: Vec<Content> = Vec::new();
    content.push(Content::Text { text });
    assert(contents_view(content@) =~= seq![ContentV::Text { text: t }]);
    ToolResult { content, details, child_loop_id: None }
}

} // verus!
