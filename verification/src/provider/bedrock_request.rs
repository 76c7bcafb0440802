//! The request body of the Bedrock Converse API. Objects are written with
//! their keys in sorted order, as `serde_json` renders them.
use vstd::prelude::*;
use crate::types::{Content, ContentV, Message, MessageV, contents_view};
use crate::json::{json_string, push_json_string};
use crate::strs::{chars_of, decimal, push_char, push_decimal, push_str, string_of, to_owned_string};
use crate::session::{find_first, first_index_of};
use crate::context::skills::frontmatter::sub_chars;
use crate::provider::request::{StreamRequest, ToolDefinition, comma_join, lemma_comma_join_push, messages_view};

verus! {

broadcast use vstd::string::group_string_axioms;

/// The image format Bedrock is told: the second `/`-separated part of the
/// MIME type, or `png` when it has no `/`.
pub open spec fn image_format(mime: Seq<char>) -> Seq<char> {
    match first_index_of(mime, '/') {
        None => "png"@,
        Some(p) => {
            let rest = mime.skip(p as int + 1);
            match first_index_of(rest, '/') {
                None => rest,
                Some(q) => rest.take(q as int),
            }
        },
    }
}

/// The block one content block becomes in a message (`which` 0) or in a tool
/// result (1, text and images only); none for a block that list leaves out.
pub open spec fn bedrock_item(which: u8, b: ContentV) -> Option<Seq<char>> {
    match b {
        ContentV::Text { text } => Some("{\"text\":"@ + json_string(text) + seq!['}']),
        ContentV::Image { data, mime_type } => Some("{\"image\":{\"format\":"@ + json_string(image_format(mime_type))
            + ",\"source\":{\"bytes\":"@ + json_string(data) + "}}}"@),
        ContentV::ToolCall { id, name, arguments } => if which == 0 {
            Some("{\"toolUse\":{\"input\":"@ + arguments + ",\"name\":"@ + json_string(name) + ",\"toolUseId\":"@
                + json_string(id) + "}}"@)
        } else {
            None
        },
        _ => None,
    }
}

/// The blocks list `which` keeps, in order.
pub open spec fn bedrock_items(bs: Seq<ContentV>, which: u8) -> Seq<Seq<char>>
    decreases bs.len(),
{
    if bs.len() == 0 {
        seq![]
    } else {
        let rest = bedrock_items(bs.drop_last(), which);
        match bedrock_item(which, bs.last()) {
            Some(x) => rest.push(x),
            None => rest,
        }
    }
}

/// A message as the Converse API takes it.
pub open spec fn bedrock_message(m: MessageV) -> Seq<char> {
    match m {
        MessageV::User { content, .. } => "{\"content\":["@ + comma_join(bedrock_items(content, 0)) + "],\"role\":\"user\"}"@,
        MessageV::Assistant { content, .. } => "{\"content\":["@ + comma_join(bedrock_items(content, 0))
            + "],\"role\":\"assistant\"}"@,
        MessageV::ToolResult { tool_call_id, content, is_error, .. } => {
            let blocks = bedrock_items(content, 1);
            "{\"content\":[{\"toolResult\":{\"content\":["@
                + (if blocks.len() == 0 { "{\"text\":\"\"}"@ } else { comma_join(blocks) })
                + "],\"status\":"@ + (if is_error { "\"error\""@ } else { "\"success\""@ })
                + ",\"toolUseId\":"@ + json_string(tool_call_id) + "}}],\"role\":\"user\"}"@
        },
    }
}

/// A tool definition.
pub open spec fn bedrock_tool(t: ToolDefinition) -> Seq<char> {
    "{\"toolSpec\":{\"description\":"@ + json_string(t.description@) + ",\"inputSchema\":{\"json\":"@ + t.parameters@
        + "},\"name\":"@ + json_string(t.name@) + "}}"@
}

/// The inference settings, when the request sets any.
pub open spec fn inference_field(max: Option<u32>, temperature: Option<String>) -> Seq<char> {
    match (max, temperature) {
        (Some(m), Some(t)) => "\"inferenceConfig\":{\"maxTokens\":"@ + decimal(m as nat) + ",\"temperature\":"@ + t@
            + "},"@,
        (Some(m), None) => "\"inferenceConfig\":{\"maxTokens\":"@ + decimal(m as nat) + "},"@,
        (None, Some(t)) => "\"inferenceConfig\":{\"temperature\":"@ + t@ + "},"@,
        (None, None) => seq![],
    }
}

/// The whole body.
pub open spec fn bedrock_body(r: StreamRequest) -> Seq<char> {
    seq!['{'] + inference_field(r.max_tokens, r.temperature) + "\"messages\":["@
        + comma_join(messages_view(r.messages@).map_values(|m: MessageV| bedrock_message(m))) + seq![']']
        + (if r.system_prompt@.len() > 0 { ",\"system\":[{\"text\":"@ + json_string(r.system_prompt@) + "}]"@ } else { seq![] })
        + (if r.tools@.len() > 0 {
        ",\"toolConfig\":{\"tools\":["@ + comma_join(r.tools@.map_values(|t: ToolDefinition| bedrock_tool(t))) + "]}"@
    } else {
        seq![]
    }) + seq!['}']
}

fn image_format_of(mime: &str) -> (r: String)
    ensures
        r@ == image_format(mime@),
{
    let v = chars_of(mime);
    match find_first(&v, '/') {
        None => to_owned_string("png"),
        Some(p) => {
            let rest = sub_chars(&v, p + 1, v.len());
            assert(rest@ =~= mime@.skip(p as int + 1));
            match find_first(&rest, '/') {
                None => string_of(&rest),
                Some(q) => {
                    let head = sub_chars(&rest, 0, q);
                    assert(head@ =~= rest@.take(q as int));
                    string_of(&head)
                },
            }
        },
    }
}

fn push_bedrock_item(out: &mut String, which: u8, b: &Content)
    requires
        bedrock_item(which, b@) is Some,
    ensures
        final(out)@ == old(out)@ + bedrock_item(which, b@)->0,
{
    let ghost before = out@;
    match b {
        Content::Text { text } => {
            push_str(out, "{\"text\":");
            push_json_string(out, text.as_str());
            push_char(out, '}');
        },
        Content::Image { data, mime_type } => {
            let f = image_format_of(mime_type.as_str());
            push_str(out, "{\"image\":{\"format\":");
            push_json_string(out, f.as_str());
            push_str(out, ",\"source\":{\"bytes\":");
            push_json_string(out, data.as_str());
            push_str(out, "}}}");
        },
        Content::ToolCall { id, name, arguments } => {
            push_str(out, "{\"toolUse\":{\"input\":");
            push_str(out, arguments.as_str());
            push_str(out, ",\"name\":");
            push_json_string(out, name.as_str());
            push_str(out, ",\"toolUseId\":");
            push_json_string(out, id.as_str());
            push_str(out, "}}");
        },
        _ => {},
    }
    assert(out@ =~= before + bedrock_item(which, b@)->0);
}

/// Writes the blocks list `which` keeps, joined with commas; returns how many.
fn push_bedrock_items(out: &mut String, bs: &Vec<Content>, which: u8) -> (n: usize)
    ensures
        n == bedrock_items(contents_view(bs@), which).len(),
        final(out)@ == old(out)@ + comma_join(bedrock_items(contents_view(bs@), which)),
{
    let ghost head = out@;
    let ghost cv = contents_view(bs@);
    let mut n: usize = 0;
    let mut i: usize = 0;
    while i < bs.len()
        invariant
            0 <= i <= bs.len(),
            cv == contents_view(bs@),
            n == bedrock_items(cv.take(i as int), which).len(),
            n <= i,
            out@ == head + comma_join(bedrock_items(cv.take(i as int), which)),
        decreases bs.len() - i,
    {
        let ghost a0 = bedrock_items(cv.take(i as int), which);
        assert(cv.take(i + 1).drop_last() =~= cv.take(i as int));
        assert(cv.take(i + 1).last() == bs@[i as int]@);
        let keep = match &bs[i] {
            Content::Text { .. } => true,
            Content::Image { .. } => true,
            Content::ToolCall { .. } => which == 0,
            _ => false,
        };
        if keep {
            if n > 0 {
                push_char(out, ',');
            }
            push_bedrock_item(out, which, &bs[i]);
            proof {
                let x = bedrock_item(which, bs@[i as int]@)->0;
                lemma_comma_join_push(a0, x);
                assert(bedrock_items(cv.take(i + 1), which) == a0.push(x));
            }
            n = n + 1;
        } else {
            assert(bedrock_items(cv.take(i + 1), which) == a0);
        }
        i = i + 1;
    }
    assert(cv.take(bs.len() as int) =~= cv);
    n
}

fn push_bedrock_message(out: &mut String, m: &Message)
    ensures
        final(out)@ == old(out)@ + bedrock_message(m@),
{
    let ghost before = out@;
    match m {
        Message::User { content, .. } => {
            push_str(out, "{\"content\":[");
            let _ = push_bedrock_items(out, content, 0);
            push_str(out, "],\"role\":\"user\"}");
        },
        Message::Assistant { content, .. } => {
            push_str(out, "{\"content\":[");
            let _ = push_bedrock_items(out, content, 0);
            push_str(out, "],\"role\":\"assistant\"}");
        },
        Message::ToolResult { tool_call_id, content, is_error, .. } => {
            push_str(out, "{\"content\":[{\"toolResult\":{\"content\":[");
            let mut blocks = String::new();
            let n = push_bedrock_items(&mut blocks, content, 1);
            if n == 0 {
                push_str(out, "{\"text\":\"\"}");
            } else {
                push_str(out, blocks.as_str());
            }
            push_str(out, "],\"status\":");
            if *is_error {
                push_str(out, "\"error\"");
            } else {
                push_str(out, "\"success\"");
            }
            push_str(out, ",\"toolUseId\":");
            push_json_string(out, tool_call_id.as_str());
            push_str(out, "}}],\"role\":\"user\"}");
        },
    }
    assert(out@ =~= before + bedrock_message(m@));
}

fn push_bedrock_messages(out: &mut String, ms: &Vec<Message>)
    ensures
        final(out)@ == old(out)@ + comma_join(messages_view(ms@).map_values(|m: MessageV| bedrock_message(m))),
{
    let ghost head = out@;
    let ghost items = messages_view(ms@).map_values(|m: MessageV| bedrock_message(m));
    let mut i: usize = 0;
    while i < ms.len()
        invariant
            0 <= i <= ms.len(),
            items == messages_view(ms@).map_values(|m: MessageV| bedrock_message(m)),
            out@ == head + comma_join(items.take(i as int)),
        decreases ms.len() - i,
    {
        if i > 0 {
            push_char(out, ',');
        }
        push_bedrock_message(out, &ms[i]);
        proof {
            assert(items[i as int] == bedrock_message(ms@[i as int]@));
            assert(items.take(i + 1) =~= items.take(i as int).push(items[i as int]));
            lemma_comma_join_push(items.take(i as int), items[i as int]);
            assert(out@ =~= head + comma_join(items.take(i + 1)));
        }
        i = i + 1;
    }
    assert(items.take(ms.len() as int) =~= items);
}

fn push_bedrock_tool(out: &mut String, t: &ToolDefinition)
    ensures
        final(out)@ == old(out)@ + bedrock_tool(*t),
{
    let ghost before = out@;
    push_str(out, "{\"toolSpec\":{\"description\":");
    push_json_string(out, t.description.as_str());
    push_str(out, ",\"inputSchema\":{\"json\":");
    push_str(out, t.parameters.as_str());
    push_str(out, "},\"name\":");
    push_json_string(out, t.name.as_str());
    push_str(out, "}}");
    assert(out@ =~= before + bedrock_tool(*t));
}

fn push_bedrock_tools(out: &mut String, ts: &Vec<ToolDefinition>)
    ensures
        final(out)@ == old(out)@ + comma_join(ts@.map_values(|t: ToolDefinition| bedrock_tool(t))),
{
    let ghost head = out@;
    let ghost items = ts@.map_values(|t: ToolDefinition| bedrock_tool(t));
    let mut k: usize = 0;
    while k < ts.len()
        invariant
            0 <= k <= ts.len(),
            items == ts@.map_values(|t: ToolDefinition| bedrock_tool(t)),
            out@ == head + comma_join(items.take(k as int)),
        decreases ts.len() - k,
    {
        if k > 0 {
            push_char(out, ',');
        }
        push_bedrock_tool(out, &ts[k]);
        proof {
            assert(items[k as int] == bedrock_tool(ts@[k as int]));
            assert(items.take(k + 1) =~= items.take(k as int).push(items[k as int]));
            lemma_comma_join_push(items.take(k as int), items[k as int]);
            assert(out@ =~= head + comma_join(items.take(k + 1)));
        }
        k = k + 1;
    }
    assert(items.take(ts.len() as int) =~= items);
}

fn push_inference(out: &mut String, max: Option<u32>, temperature: &Option<String>)
    ensures
        final(out)@ == old(out)@ + inference_field(max, *temperature),
{
    let ghost before = out@;
    match (max, temperature) {
        (Some(m), Some(t)) => {
            push_str(out, "\"inferenceConfig\":{\"maxTokens\":");
            push_decimal(out, m as u64);
            push_str(out, ",\"temperature\":");
            push_str(out, t.as_str());
            push_str(out, "},");
        },
        (Some(m), None) => {
            push_str(out, "\"inferenceConfig\":{\"maxTokens\":");
            push_decimal(out, m as u64);
            push_str(out, "},");
        },
        (None, Some(t)) => {
            push_str(out, "\"inferenceConfig\":{\"temperature\":");
            push_str(out, t.as_str());
            push_str(out, "},");
        },
        (None, None) => {},
    }
    assert(out@ =~= before + inference_field(max, *temperature));
}

/// The Converse API request body: the inference settings the request sets,
/// the conversation, the system prompt and the tools.
pub fn build_bedrock_body(r: &StreamRequest) -> (body: String)
    ensures
        body@ == bedrock_body(*r),
{
    let mut out = String::new();
    push_char(&mut out, '{');
    push_inference(&mut out, r.max_tokens, &r.temperature);
    push_str(&mut out, "\"messages\":[");
    push_bedrock_messages(&mut out, &r.messages);
    push_char(&mut out, ']');
    if chars_of(r.system_prompt.as_str()).len() > 0 {
        push_str(&mut out, ",\"system\":[{\"text\":");
        push_json_string(&mut out, r.system_prompt.as_str());
        push_str(&mut out, "}]");
    }
    if r.tools.len() > 0 {
        push_str(&mut out, ",\"toolConfig\":{\"tools\":[");
        push_bedrock_tools(&mut out, &r.tools);
        push_str(&mut out, "]}");
    }
    push_char(&mut out, '}');
    assert(out@ =~= bedrock_body(*r));
    out
}

} // verus!
