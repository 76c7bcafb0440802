//! The request body of the OpenAI Chat Completions API, as a compatible
//! provider's flags shape it. Objects are written with their keys in sorted
//! order, as `serde_json` renders them.
use vstd::prelude::*;
use crate::types::{Content, ContentV, Message, MessageV, contents_view};
use crate::json::{json_string, push_json_string};
use crate::strs::{decimal, push_char, push_decimal, push_str, to_owned_string};
use crate::provider::model::{MaxTokensField, OpenAiCompat};
use crate::provider::request::{
    StreamRequest, ThinkingLevel, ToolDefinition, comma_join, first_text, first_text_of, has_image, is_image_free,
    lemma_comma_join_push, messages_view, push_temperature, temperature_field,
};

verus! {

broadcast use vstd::string::group_string_axioms;

/// The `data:` URL of an inline image.
pub open spec fn data_url(mime_type: Seq<char>, data: Seq<char>) -> Seq<char> {
    "data:"@ + mime_type + ";base64,"@ + data
}

/// A text part.
pub open spec fn text_part(text: Seq<char>) -> Seq<char> {
    "{\"text\":"@ + json_string(text) + ",\"type\":\"text\"}"@
}

/// The part a block becomes in the first list (`which` 0: text and image
/// parts), the second (1: text parts) or the third (2: tool calls); none for
/// a block that list leaves out.
pub open spec fn item_for(which: u8, b: ContentV) -> Option<Seq<char>> {
    match b {
        ContentV::Text { text } => if which <= 1 { Some(text_part(text)) } else { None },
        ContentV::Image { data, mime_type } => if which == 0 {
            Some("{\"image_url\":{\"url\":"@ + json_string(data_url(mime_type, data)) + "},\"type\":\"image_url\"}"@)
        } else {
            None
        },
        ContentV::ToolCall { id, name, arguments } => if which == 2 {
            Some("{\"function\":{\"arguments\":"@ + json_string(arguments) + ",\"name\":"@ + json_string(name)
                + "},\"id\":"@ + json_string(id) + ",\"type\":\"function\"}"@)
        } else {
            None
        },
        _ => None,
    }
}

/// The items of the blocks that list `which` keeps, in order.
pub open spec fn picked(bs: Seq<ContentV>, which: u8) -> Seq<Seq<char>>
    decreases bs.len(),
{
    if bs.len() == 0 {
        seq![]
    } else {
        let rest = picked(bs.drop_last(), which);
        match item_for(which, bs.last()) {
            Some(x) => rest.push(x),
            None => rest,
        }
    }
}

/// Message content: a lone text block as a plain string, else an array of
/// the text and image parts.
pub open spec fn oa_content(bs: Seq<ContentV>) -> Seq<char> {
    if bs.len() == 1 && bs[0] is Text {
        json_string(bs[0]->Text_text)
    } else {
        seq!['['] + comma_join(picked(bs, 0)) + seq![']']
    }
}

/// A message as the Chat Completions API takes it.
pub open spec fn oa_message(m: MessageV, compat: OpenAiCompat) -> Seq<char> {
    match m {
        MessageV::User { content, .. } => "{\"content\":"@ + oa_content(content) + ",\"role\":\"user\"}"@,
        MessageV::Assistant { content, .. } => {
            let parts = picked(content, 1);
            let calls = picked(content, 2);
            seq!['{'] + (if parts.len() > 0 { "\"content\":["@ + comma_join(parts) + "],"@ } else { seq![] })
                + "\"role\":\"assistant\""@
                + (if calls.len() > 0 { ",\"tool_calls\":["@ + comma_join(calls) + seq![']'] } else { seq![] }) + seq!['}']
        },
        MessageV::ToolResult { tool_call_id, tool_name, content, .. } => "{\"content\":"@
            + (if has_image(content) { oa_content(content) } else { json_string(first_text_of(content)) })
            + (if compat.requires_tool_result_name { ",\"name\":"@ + json_string(tool_name) } else { seq![] })
            + ",\"role\":\"tool\",\"tool_call_id\":"@ + json_string(tool_call_id) + seq!['}'],
    }
}

/// The system message: with the developer role where the provider has it.
pub open spec fn system_message(prompt: Seq<char>, compat: OpenAiCompat) -> Seq<char> {
    "{\"content\":"@ + json_string(prompt) + ",\"role\":"@
        + (if compat.supports_developer_role { "\"developer\"}"@ } else { "\"system\"}"@ })
}

/// The messages: the system prompt, when there is one, then the conversation.
pub open spec fn oa_messages(r: StreamRequest, compat: OpenAiCompat) -> Seq<Seq<char>> {
    (if r.system_prompt@.len() > 0 { seq![system_message(r.system_prompt@, compat)] } else { seq![] })
        + messages_view(r.messages@).map_values(|m: MessageV| oa_message(m, compat))
}

/// A tool definition.
pub open spec fn oa_tool(t: ToolDefinition) -> Seq<char> {
    "{\"function\":{\"description\":"@ + json_string(t.description@) + ",\"name\":"@ + json_string(t.name@)
        + ",\"parameters\":"@ + t.parameters@ + "},\"type\":\"function\"}"@
}

/// The reasoning effort of a thinking level.
pub open spec fn effort_name(t: ThinkingLevel) -> Seq<char> {
    match t {
        ThinkingLevel::High => "high"@,
        ThinkingLevel::Medium => "medium"@,
        _ => "low"@,
    }
}

/// The output limit under the field the provider reads.
pub open spec fn limit_field(r: StreamRequest, compat: OpenAiCompat, default_max: u32) -> Seq<char> {
    let max = match r.max_tokens {
        Some(m) => m,
        None => default_max,
    };
    (match compat.max_tokens_field {
        MaxTokensField::MaxCompletionTokens => "\"max_completion_tokens\":"@,
        MaxTokensField::MaxTokens => "\"max_tokens\":"@,
    }) + decimal(max as nat)
}

/// The reasoning effort, where the provider takes it and thinking is on.
pub open spec fn reasoning_field(r: StreamRequest, compat: OpenAiCompat) -> Seq<char> {
    if r.thinking_level != ThinkingLevel::Off && compat.supports_reasoning_effort {
        ",\"reasoning_effort\":\""@ + effort_name(r.thinking_level) + seq!['"']
    } else {
        seq![]
    }
}

/// The tools, when there are any.
pub open spec fn oa_tools_field(r: StreamRequest) -> Seq<char> {
    if r.tools@.len() > 0 {
        ",\"tools\":["@ + comma_join(r.tools@.map_values(|t: ToolDefinition| oa_tool(t))) + seq![']']
    } else {
        seq![]
    }
}

/// The whole body.
pub open spec fn openai_body(r: StreamRequest, compat: OpenAiCompat, default_max: u32) -> Seq<char> {
    seq!['{'] + limit_field(r, compat, default_max) + ",\"messages\":["@ + comma_join(oa_messages(r, compat))
        + "],\"model\":"@ + json_string(r.model@) + reasoning_field(r, compat)
        + ",\"stream\":true,\"stream_options\":{\"include_usage\":true}"@ + temperature_field(r.temperature)
        + oa_tools_field(r) + seq!['}']
}

fn push_item(out: &mut String, which: u8, b: &Content) -> (pushed: bool)
    ensures
        pushed == (item_for(which, b@) is Some),
        final(out)@ == old(out)@ + match item_for(which, b@) {
            Some(x) => x,
            None => seq![],
        },
{
    let ghost before = out@;
    match b {
        Content::Text { text } => {
            if which <= 1 {
                push_str(out, "{\"text\":");
                push_json_string(out, text.as_str());
                push_str(out, ",\"type\":\"text\"}");
                assert(out@ =~= before + text_part(text@));
                true
            } else {
                false
            }
        },
        Content::Image { data, mime_type } => {
            if which == 0 {
                let mut url = to_owned_string("data:");
                push_str(&mut url, mime_type.as_str());
                push_str(&mut url, ";base64,");
                push_str(&mut url, data.as_str());
                push_str(out, "{\"image_url\":{\"url\":");
                push_json_string(out, url.as_str());
                push_str(out, "},\"type\":\"image_url\"}");
                assert(url@ =~= data_url(mime_type@, data@));
                assert(out@ =~= before + item_for(which, b@)->0);
                true
            } else {
                false
            }
        },
        Content::ToolCall { id, name, arguments } => {
            if which == 2 {
                push_str(out, "{\"function\":{\"arguments\":");
                push_json_string(out, arguments.as_str());
                push_str(out, ",\"name\":");
                push_json_string(out, name.as_str());
                push_str(out, "},\"id\":");
                push_json_string(out, id.as_str());
                push_str(out, ",\"type\":\"function\"}");
                assert(out@ =~= before + item_for(which, b@)->0);
                true
            } else {
                false
            }
        },
        _ => false,
    }
}

/// Writes the items list `which` keeps, joined with commas; says whether it is empty.
fn push_picked(out: &mut String, bs: &Vec<Content>, which: u8) -> (n: usize)
    ensures
        n == picked(contents_view(bs@), which).len(),
        final(out)@ == old(out)@ + comma_join(picked(contents_view(bs@), which)),
{
    let ghost head = out@;
    let ghost cv = contents_view(bs@);
    let mut n: usize = 0;
    let mut i: usize = 0;
    while i < bs.len()
        invariant
            0 <= i <= bs.len(),
            cv == contents_view(bs@),
            n == picked(cv.take(i as int), which).len(),
            n <= i,
            out@ == head + comma_join(picked(cv.take(i as int), which)),
        decreases bs.len() - i,
    {
        let ghost p0 = picked(cv.take(i as int), which);
        assert(cv.take(i + 1).drop_last() =~= cv.take(i as int));
        assert(cv.take(i + 1).last() == bs@[i as int]@);
        let keep = match &bs[i] {
            Content::Text { .. } => which <= 1,
            Content::Image { .. } => which == 0,
            Content::ToolCall { .. } => which == 2,
            _ => false,
        };
        if keep {
            if n > 0 {
                push_char(out, ',');
            }
            let _ = push_item(out, which, &bs[i]);
            proof {
                let x = item_for(which, bs@[i as int]@)->0;
                lemma_comma_join_push(p0, x);
                assert(picked(cv.take(i + 1), which) == p0.push(x));
                assert(out@ =~= head + comma_join(p0.push(x)));
            }
            n = n + 1;
        } else {
            assert(picked(cv.take(i + 1), which) == p0);
        }
        i = i + 1;
    }
    assert(cv.take(bs.len() as int) =~= cv);
    n
}

fn push_oa_content(out: &mut String, bs: &Vec<Content>)
    ensures
        final(out)@ == old(out)@ + oa_content(contents_view(bs@)),
{
    let ghost before = out@;
    if bs.len() == 1 {
        if let Content::Text { text } = &bs[0] {
            push_json_string(out, text.as_str());
            assert(contents_view(bs@)[0] == bs@[0]@);
            return;
        }
    }
    assert(bs.len() == 1 ==> contents_view(bs@)[0] == bs@[0]@);
    push_char(out, '[');
    let _ = push_picked(out, bs, 0);
    push_char(out, ']');
    assert(out@ =~= before + oa_content(contents_view(bs@)));
}

fn push_oa_message(out: &mut String, m: &Message, compat: &OpenAiCompat)
    ensures
        final(out)@ == old(out)@ + oa_message(m@, *compat),
{
    let ghost before = out@;
    match m {
        Message::User { content, .. } => {
            push_str(out, "{\"content\":");
            push_oa_content(out, content);
            push_str(out, ",\"role\":\"user\"}");
        },
        Message::Assistant { content, .. } => {
            let mut parts = String::new();
            let np = push_picked(&mut parts, content, 1);
            let mut calls = String::new();
            let nc = push_picked(&mut calls, content, 2);
            push_char(out, '{');
            if np > 0 {
                push_str(out, "\"content\":[");
                push_str(out, parts.as_str());
                push_str(out, "],");
            }
            push_str(out, "\"role\":\"assistant\"");
            if nc > 0 {
                push_str(out, ",\"tool_calls\":[");
                push_str(out, calls.as_str());
                push_char(out, ']');
            }
            push_char(out, '}');
        },
        Message::ToolResult { tool_call_id, tool_name, content, .. } => {
            push_str(out, "{\"content\":");
            if is_image_free(content) {
                let t = first_text(content);
                push_json_string(out, t.as_str());
            } else {
                push_oa_content(out, content);
            }
            if compat.requires_tool_result_name {
                push_str(out, ",\"name\":");
                push_json_string(out, tool_name.as_str());
            }
            push_str(out, ",\"role\":\"tool\",\"tool_call_id\":");
            push_json_string(out, tool_call_id.as_str());
            push_char(out, '}');
        },
    }
    assert(out@ =~= before + oa_message(m@, *compat));
}

fn push_oa_messages(out: &mut String, r: &StreamRequest, compat: &OpenAiCompat)
    ensures
        final(out)@ == old(out)@ + comma_join(oa_messages(*r, *compat)),
{
    let ghost head = out@;
    let ghost items = oa_messages(*r, *compat);
    let ghost mv = messages_view(r.messages@);
    let has_system = crate::strs::chars_of(r.system_prompt.as_str()).len() > 0;
    let off: usize = if has_system { 1 } else { 0 };
    if has_system {
        push_str(out, "{\"content\":");
        push_json_string(out, r.system_prompt.as_str());
        push_str(out, ",\"role\":");
        if compat.supports_developer_role {
            push_str(out, "\"developer\"}");
        } else {
            push_str(out, "\"system\"}");
        }
        assert(items.take(1) =~= seq![items[0]]);
        assert(out@ =~= head + comma_join(items.take(1)));
    } else {
        assert(items.take(0) =~= Seq::<Seq<char>>::empty());
    }
    let n = r.messages.len();
    let mut i: usize = 0;
    while i < n
        invariant
            0 <= i <= n,
            n == r.messages.len(),
            mv == messages_view(r.messages@),
            items == oa_messages(*r, *compat),
            items.len() == off + n,
            out@ == head + comma_join(items.take(off + i)),
        decreases n - i,
    {
        if off + i > 0 {
            push_char(out, ',');
        }
        push_oa_message(out, &r.messages[i], compat);
        proof {
            assert(items[off + i] == oa_message(mv[i as int], *compat));
            assert(mv[i as int] == r.messages@[i as int]@);
            assert(items.take(off + i + 1) =~= items.take(off + i).push(items[off + i]));
            lemma_comma_join_push(items.take(off + i), items[off + i]);
            assert(out@ =~= head + comma_join(items.take(off + i + 1)));
        }
        i = i + 1;
    }
    assert(items.take(off + n) =~= items);
}

fn push_oa_tool(out: &mut String, t: &ToolDefinition)
    ensures
        final(out)@ == old(out)@ + oa_tool(*t),
{
    let ghost before = out@;
    push_str(out, "{\"function\":{\"description\":");
    push_json_string(out, t.description.as_str());
    push_str(out, ",\"name\":");
    push_json_string(out, t.name.as_str());
    push_str(out, ",\"parameters\":");
    push_str(out, t.parameters.as_str());
    push_str(out, "},\"type\":\"function\"}");
    assert(out@ =~= before + oa_tool(*t));
}

fn push_oa_tools(out: &mut String, ts: &Vec<ToolDefinition>)
    ensures
        final(out)@ == old(out)@ + comma_join(ts@.map_values(|t: ToolDefinition| oa_tool(t))),
{
    let ghost head = out@;
    let ghost items = ts@.map_values(|t: ToolDefinition| oa_tool(t));
    let mut k: usize = 0;
    while k < ts.len()
        invariant
            0 <= k <= ts.len(),
            items == ts@.map_values(|t: ToolDefinition| oa_tool(t)),
            out@ == head + comma_join(items.take(k as int)),
        decreases ts.len() - k,
    {
        let ghost mid = out@;
        if k > 0 {
            push_char(out, ',');
        }
        push_oa_tool(out, &ts[k]);
        proof {
            assert(items[k as int] == oa_tool(ts@[k as int]));
            assert(items.take(k + 1) =~= items.take(k as int).push(items[k as int]));
            lemma_comma_join_push(items.take(k as int), items[k as int]);
            assert(out@ =~= head + comma_join(items.take(k + 1)));
        }
        k = k + 1;
    }
    assert(items.take(ts.len() as int) =~= items);
}

fn push_limit(out: &mut String, r: &StreamRequest, compat: &OpenAiCompat, default_max_tokens: u32)
    ensures
        final(out)@ == old(out)@ + limit_field(*r, *compat, default_max_tokens),
{
    let ghost before = out@;
    let max = match r.max_tokens {
        Some(m) => m,
        None => default_max_tokens,
    };
    match compat.max_tokens_field {
        MaxTokensField::MaxCompletionTokens => push_str(out, "\"max_completion_tokens\":"),
        MaxTokensField::MaxTokens => push_str(out, "\"max_tokens\":"),
    }
    push_decimal(out, max as u64);
    assert(out@ =~= before + limit_field(*r, *compat, default_max_tokens));
}

fn push_reasoning(out: &mut String, r: &StreamRequest, compat: &OpenAiCompat)
    ensures
        final(out)@ == old(out)@ + reasoning_field(*r, *compat),
{
    let ghost before = out@;
    if r.thinking_level != ThinkingLevel::Off && compat.supports_reasoning_effort {
        push_str(out, ",\"reasoning_effort\":\"");
        match r.thinking_level {
            ThinkingLevel::High => push_str(out, "high"),
            ThinkingLevel::Medium => push_str(out, "medium"),
            _ => push_str(out, "low"),
        }
        push_char(out, '"');
    }
    assert(out@ =~= before + reasoning_field(*r, *compat));
}

/// The Chat Completions request body: the system prompt (as a developer
/// message where the provider has that role) and the conversation, the model,
/// the output limit under the field the provider reads (`default_max_tokens`
/// unless the request sets one), the reasoning effort where the provider takes
/// it and thinking is on, streaming with usage, the temperature and the tools.
pub fn build_request_body(r: &StreamRequest, compat: &OpenAiCompat, default_max_tokens: u32) -> (body: String)
    ensures
        body@ == openai_body(*r, *compat, default_max_tokens),
{
    let mut out = String::new();
    push_char(&mut out, '{');
    push_limit(&mut out, r, compat, default_max_tokens);
    push_str(&mut out, ",\"messages\":[");
    push_oa_messages(&mut out, r, compat);
    push_str(&mut out, "],\"model\":");
    push_json_string(&mut out, r.model.as_str());
    push_reasoning(&mut out, r, compat);
    push_str(&mut out, ",\"stream\":true,\"stream_options\":{\"include_usage\":true}");
    push_temperature(&mut out, &r.temperature);
    if r.tools.len() > 0 {
        push_str(&mut out, ",\"tools\":[");
        push_oa_tools(&mut out, &r.tools);
        push_char(&mut out, ']');
    }
    push_char(&mut out, '}');
    assert(out@ =~= openai_body(*r, *compat, default_max_tokens));
    out
}

} // verus!
