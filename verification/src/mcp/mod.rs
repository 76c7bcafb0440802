//! Model Context Protocol: the client's identity and settings, and how a tool
//! call's result from an MCP server becomes a tool result.
use vstd::prelude::*;
use std::time::Duration;
use crate::types::{Content, ContentV, contents_view};
use crate::tools::{ToolError, ToolErrorV, ToolResult};
use crate::tools::bash::{duration_from_secs, duration_of_secs};
use crate::strs::{push_char, push_str, to_owned_string, copy_string};

verus! {

broadcast use vstd::string::group_string_axioms;

/// How long a request waits for its response by default: 30 seconds.
pub fn default_request_timeout() -> (d: Duration)
    ensures
        d == duration_of_secs(30),
{
    duration_from_secs(30)
}

/// The name and version the client announces.
pub struct ClientInfo {
    pub name: String,
    pub version: String,
}

impl Default for ClientInfo {
    fn default() -> (r: Self)
        ensures
            r.name@ == "phi-core"@,
            r.version@ == "0.7.0"@,
    {
        ClientInfo { name: to_owned_string("phi-core"), version: to_owned_string("0.7.0") }
    }
}

/// The name and version a server announces.
pub struct ServerInfo {
    pub name: String,
    pub version: String,
}

/// The client's settings.
pub struct McpClientConfig {
    /// How long a request waits for its response.
    pub request_timeout: Duration,
}

impl Default for McpClientConfig {
    fn default() -> (r: Self)
        ensures
            r.request_timeout == duration_of_secs(30),
    {
        McpClientConfig { request_timeout: default_request_timeout() }
    }
}

/// A block of a tool call's result.
pub enum McpContent {
    Text { text: String },
    Image { data: String, mime_type: String },
}

/// The result of a tool call on an MCP server.
pub struct McpToolCallResult {
    pub content: Vec<McpContent>,
    pub is_error: bool,
}

/// The content block an MCP block becomes.
pub open spec fn mcp_block(c: McpContent) -> ContentV {
    match c {
        McpContent::Text { text } => ContentV::Text { text: text@ },
        McpContent::Image { data, mime_type } => ContentV::Image { data: data@, mime_type: mime_type@ },
    }
}

/// The texts of the text blocks of `cs`, joined with line breaks.
pub open spec fn joined_texts(cs: Seq<McpContent>) -> Seq<char>
    decreases cs.len(),
{
    if cs.len() == 0 {
        seq![]
    } else {
        let rest = joined_texts(cs.drop_last());
        match cs.last() {
            McpContent::Text { text } => if texts_before(cs.drop_last()) {
                rest + seq!['\n'] + text@
            } else {
                text@
            },
            _ => rest,
        }
    }
}

/// Some block of `cs` is text.
pub open spec fn texts_before(cs: Seq<McpContent>) -> bool {
    exists|i: int| 0 <= i < cs.len() && (#[trigger] cs[i]) is Text
}

proof fn lemma_no_text_nothing_joined(cs: Seq<McpContent>)
    requires
        !texts_before(cs),
    ensures
        joined_texts(cs) == Seq::<char>::empty(),
    decreases cs.len(),
{
    if cs.len() > 0 {
        assert(!(cs[cs.len() - 1] is Text));
        assert(!texts_before(cs.drop_last())) by {
            if texts_before(cs.drop_last()) {
                let j = choose|j: int| 0 <= j < cs.drop_last().len() && (#[trigger] cs.drop_last()[j]) is Text;
                assert(cs[j] == cs.drop_last()[j]);
            }
        }
        lemma_no_text_nothing_joined(cs.drop_last());
    }
}

/// The tool result of an MCP call: an error holding the texts when the
/// server marks the call failed, else the blocks as content.
pub fn mcp_tool_result(r: McpToolCallResult) -> (out: Result<ToolResult, ToolError>)
    ensures
        r.is_error ==> (out matches Err(e) && e@ == ToolErrorV::Failed(joined_texts(r.content@))),
        !r.is_error ==> (out matches Ok(t) && contents_view(t.content@) == r.content@.map_values(|c: McpContent| mcp_block(c))
            && t.details@ == "null"@ && t.child_loop_id is None),
{
    let ghost cs = r.content@;
    if r.is_error {
        let mut text = String::new();
        let mut any = false;
        let mut i: usize = 0;
        while i < r.content.len()
            invariant
                0 <= i <= r.content.len(),
                cs == r.content@,
                text@ == joined_texts(cs.take(i as int)),
                any == texts_before(cs.take(i as int)),
            decreases r.content.len() - i,
        {
            let ghost pre = cs.take(i as int);
            assert(cs.take(i + 1).drop_last() =~= pre);
            assert(cs.take(i + 1).last() == cs[i as int]);
            proof {
                if !any {
                    lemma_no_text_nothing_joined(pre);
                }
            }
            match &r.content[i] {
                McpContent::Text { text: t } => {
                    if any {
                        push_char(&mut text, '\n');
                    }
                    push_str(&mut text, t.as_str());
                    assert(cs.take(i + 1)[i as int] is Text);
                },
                McpContent::Image { .. } => {
                    assert(texts_before(cs.take(i + 1)) == texts_before(pre)) by {
                        if texts_before(cs.take(i + 1)) {
                            let j = choose|j: int| 0 <= j < cs.take(i + 1).len() && (#[trigger] cs.take(i + 1)[j]) is Text;
                            assert(pre[j] == cs.take(i + 1)[j]);
                        }
                        if texts_before(pre) {
                            let j = choose|j: int| 0 <= j < pre.len() && (#[trigger] pre[j]) is Text;
                            assert(pre[j] == cs.take(i + 1)[j]);
                        }
                    }
                },
            }
            proof {
                if any && !texts_before(cs.take(i + 1)) {
                    let j = choose|j: int| 0 <= j < pre.len() && (#[trigger] pre[j]) is Text;
                    assert(pre[j] == cs.take(i + 1)[j]);
                }
                if let McpContent::Text { .. } = cs[i as int] {
                    assert(cs.take(i + 1)[i as int] is Text);
                }
            }
            any = any || (match &r.content[i] {
                McpContent::Text { .. } => true,
                _ => false,
            });
            i = i + 1;
        }
        assert(cs.take(r.content.len() as int) =~= cs);
        return Err(ToolError::Failed(text));
    }
    let McpToolCallResult { content: blocks, .. } = r;
    let mut blocks = blocks;
    let mut content: Vec<Content> = Vec::new();
    while blocks.len() > 0
        invariant
            contents_view(content@) + blocks@.map_values(|c: McpContent| mcp_block(c)) == cs.map_values(|c: McpContent| mcp_block(c)),
        decreases blocks.len(),
    {
        let ghost b0 = blocks@;
        let ghost c0 = contents_view(content@);
        let b = blocks.remove(0);
        let ghost bv = mcp_block(b);
        let c = match b {
            McpContent::Text { text } => Content::Text { text },
            McpContent::Image { data, mime_type } => Content::Image { data, mime_type },
        };
        assert(c@ == bv);
        content.push(c);
        assert(contents_view(content@) =~= c0.push(bv));
        assert(b0.map_values(|c: McpContent| mcp_block(c)) =~= seq![bv] + blocks@.map_values(|c: McpContent| mcp_block(c)));
        assert(contents_view(content@) + blocks@.map_values(|c: McpContent| mcp_block(c))
            =~= c0 + b0.map_values(|c: McpContent| mcp_block(c)));
    }
    assert(contents_view(content@) =~= contents_view(content@) + blocks@.map_values(|c: McpContent| mcp_block(c)));
    Ok(ToolResult { content, details: to_owned_string("null"), child_loop_id: None })
}


/// The name under which a server's tool is offered: the server's name behind
/// the prefix chosen to keep tools of several servers apart, if any.
pub fn prefixed_tool_name(prefix: Option<&str>, name: &str) -> (r: String)
    ensures
        r@ == match prefix {
            Some(p) => p@ + name@,
            None => name@,
        },
{
    match prefix {
        Some(p) => {
            let mut out = to_owned_string(p);
            push_str(&mut out, name);
            out
        },
        None => to_owned_string(name),
    }
}

/// Why a JSON-RPC response carries no result.
#[derive(Debug)]
pub enum RpcFailure {
    /// The server answered with an error.
    JsonRpc { code: i64, message: String },
    /// The response has neither a result nor an error.
    NoResult,
}

/// The result of a JSON-RPC response with the given `error` (code and message)
/// and `result` members: the error wins, then the result; neither is a failure.
pub fn rpc_result<T>(error: Option<(i64, String)>, result: Option<T>) -> (r: Result<T, RpcFailure>)
    ensures
        match error {
            Some((code, message)) => r matches Err(RpcFailure::JsonRpc { code: c, message: m }) && c == code && m@ == message@,
            None => match result {
                Some(v) => r == Ok::<T, RpcFailure>(v),
                None => r matches Err(RpcFailure::NoResult),
            },
        },
{
    match error {
        Some((code, message)) => Err(RpcFailure::JsonRpc { code, message }),
        None => match result {
            Some(v) => Ok(v),
            None => Err(RpcFailure::NoResult),
        },
    }
}

} // verus!
