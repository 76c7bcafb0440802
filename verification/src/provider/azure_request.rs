//! The request body of the Azure OpenAI Responses API. Objects are written
//! with their keys in sorted order, as `serde_json` renders them.
use vstd::prelude::*;
use crate::types::{Content, ContentV, Message, MessageV, contents_view};
use crate::json::{json_string, push_json_string};
use crate::strs::{decimal, push_char, push_decimal, push_str, to_owned_string};
use crate::provider::openai_request::data_url;
use crate::provider::request::{
    StreamRequest, ToolDefinition, comma_join, first_text, first_text_of, has_image, is_image_free,
    lemma_comma_join_push, messages_view, push_temperature, temperature_field,
};

verus! {

broadcast use vstd::string::group_string_axioms;

/// The text and image blocks of `bs`, in order.
pub open spec fn media(bs: Seq<ContentV>) -> Seq<ContentV>
    decreases bs.len(),
{
    if bs.len() == 0 {
        seq![]
    } else {
        let rest = media(bs.drop_last());
        if bs.last() is Text || bs.last() is Image { rest.push(bs.last()) } else { rest }
    }
}

/// An input part: text, or an image as a `data:` URL.
pub open spec fn input_part(b: ContentV) -> Seq<char> {
    match b {
        ContentV::Image { data, mime_type } => "{\"image_url\":"@ + json_string(data_url(mime_type, data))
            + ",\"type\":\"input_image\"}"@,
        ContentV::Text { text } => "{\"text\":"@ + json_string(text) + ",\"type\":\"input_text\"}"@,
        _ => seq![],
    }
}

/// The input parts of `bs` as an array.
pub open spec fn input_parts(bs: Seq<ContentV>) -> Seq<char> {
    seq!['['] + comma_join(media(bs).map_values(|b: ContentV| input_part(b))) + seq![']']
}

/// The input item of one assistant block; none for a block that has none.
pub open spec fn assistant_item(b: ContentV) -> Option<Seq<char>> {
    match b {
        ContentV::Text { text } => Some("{\"content\":[{\"text\":"@ + json_string(text)
            + ",\"type\":\"output_text\"}],\"role\":\"assistant\",\"type\":\"message\"}"@),
        ContentV::ToolCall { id, name, arguments } => Some("{\"arguments\":"@ + json_string(arguments) + ",\"call_id\":"@
            + json_string(id) + ",\"name\":"@ + json_string(name) + ",\"type\":\"function_call\"}"@),
        _ => None,
    }
}

/// The input items of an assistant message's blocks, in order.
pub open spec fn assistant_items(bs: Seq<ContentV>) -> Seq<Seq<char>>
    decreases bs.len(),
{
    if bs.len() == 0 {
        seq![]
    } else {
        let rest = assistant_items(bs.drop_last());
        match assistant_item(bs.last()) {
            Some(x) => rest.push(x),
            None => rest,
        }
    }
}

/// The input items of one message: a user message is one item (a lone text
/// as a plain string), an assistant message one item per text or tool call,
/// a tool result one function-call output.
pub open spec fn az_items(m: MessageV) -> Seq<Seq<char>> {
    match m {
        MessageV::User { content, .. } => {
            let md = media(content);
            if md.len() == 1 && md[0] is Text {
                seq!["{\"content\":"@ + json_string(md[0]->Text_text) + ",\"role\":\"user\"}"@]
            } else {
                seq!["{\"content\":"@ + input_parts(content) + ",\"role\":\"user\"}"@]
            }
        },
        MessageV::Assistant { content, .. } => assistant_items(content),
        MessageV::ToolResult { tool_call_id, content, .. } => seq![
            "{\"call_id\":"@ + json_string(tool_call_id) + ",\"output\":"@
                + (if has_image(content) { input_parts(content) } else { json_string(first_text_of(content)) })
                + ",\"type\":\"function_call_output\"}"@,
        ],
    }
}

/// The items of all messages, in order.
pub open spec fn all_items(ms: Seq<MessageV>) -> Seq<Seq<char>>
    decreases ms.len(),
{
    if ms.len() == 0 {
        seq![]
    } else {
        all_items(ms.drop_last()) + az_items(ms.last())
    }
}

/// A tool definition.
pub open spec fn az_tool(t: ToolDefinition) -> Seq<char> {
    "{\"description\":"@ + json_string(t.description@) + ",\"name\":"@ + json_string(t.name@) + ",\"parameters\":"@
        + t.parameters@ + ",\"type\":\"function\"}"@
}

/// The instructions and the output limit, where there are any.
pub open spec fn az_settings(r: StreamRequest) -> Seq<char> {
    (if r.system_prompt@.len() > 0 { ",\"instructions\":"@ + json_string(r.system_prompt@) } else { seq![] })
        + (match r.max_tokens {
        Some(m) => ",\"max_output_tokens\":"@ + decimal(m as nat),
        None => seq![],
    })
}

/// The whole body.
pub open spec fn azure_body(r: StreamRequest) -> Seq<char> {
    "{\"input\":["@ + comma_join(all_items(messages_view(r.messages@))) + seq![']']
        + az_settings(r) + ",\"model\":"@ + json_string(r.model@) + ",\"stream\":true"@ + temperature_field(r.temperature)
        + (if r.tools@.len() > 0 {
        ",\"tools\":["@ + comma_join(r.tools@.map_values(|t: ToolDefinition| az_tool(t))) + seq![']']
    } else {
        seq![]
    }) + seq!['}']
}

fn push_input_part(out: &mut String, b: &Content)
    requires
        b@ is Text || b@ is Image,
    ensures
        final(out)@ == old(out)@ + input_part(b@),
{
    let ghost before = out@;
    match b {
        Content::Image { data, mime_type } => {
            let mut url = to_owned_string("data:");
            push_str(&mut url, mime_type.as_str());
            push_str(&mut url, ";base64,");
            push_str(&mut url, data.as_str());
            assert(url@ =~= data_url(mime_type@, data@));
            push_str(out, "{\"image_url\":");
            push_json_string(out, url.as_str());
            push_str(out, ",\"type\":\"input_image\"}");
        },
        Content::Text { text } => {
            push_str(out, "{\"text\":");
            push_json_string(out, text.as_str());
            push_str(out, ",\"type\":\"input_text\"}");
        },
        _ => {},
    }
    assert(out@ =~= before + input_part(b@));
}

/// Writes the input parts of `bs`; returns how many there are.
fn push_input_parts(out: &mut String, bs: &Vec<Content>) -> (n: usize)
    ensures
        n == media(contents_view(bs@)).len(),
        final(out)@ == old(out)@ + input_parts(contents_view(bs@)),
{
    let ghost head = out@;
    let ghost cv = contents_view(bs@);
    push_char(out, '[');
    let mut n: usize = 0;
    let mut i: usize = 0;
    while i < bs.len()
        invariant
            0 <= i <= bs.len(),
            cv == contents_view(bs@),
            n == media(cv.take(i as int)).len(),
            n <= i,
            out@ == head + seq!['['] + comma_join(media(cv.take(i as int)).map_values(|b: ContentV| input_part(b))),
        decreases bs.len() - i,
    {
        let ghost m0 = media(cv.take(i as int));
        assert(cv.take(i + 1).drop_last() =~= cv.take(i as int));
        assert(cv.take(i + 1).last() == bs@[i as int]@);
        let keep = match &bs[i] {
            Content::Text { .. } => true,
            Content::Image { .. } => true,
            _ => false,
        };
        if keep {
            if n > 0 {
                push_char(out, ',');
            }
            push_input_part(out, &bs[i]);
            proof {
                let x = bs@[i as int]@;
                assert(media(cv.take(i + 1)) == m0.push(x));
                assert(m0.push(x).map_values(|b: ContentV| input_part(b)) =~= m0.map_values(|b: ContentV| input_part(b)).push(
                    input_part(x),
                ));
                lemma_comma_join_push(m0.map_values(|b: ContentV| input_part(b)), input_part(x));
            }
            n = n + 1;
        } else {
            assert(media(cv.take(i + 1)) == m0);
        }
        i = i + 1;
    }
    assert(cv.take(bs.len() as int) =~= cv);
    push_char(out, ']');
    n
}

proof fn lemma_media_push_first(s: Seq<ContentV>, x: ContentV)
    ensures
        media(s).len() > 0 ==> media(s.push(x)).len() > 0 && media(s.push(x))[0] == media(s)[0],
        media(s).len() == 0 && (x is Text || x is Image) ==> media(s.push(x)) == seq![x],
        media(s).len() == 0 && !(x is Text || x is Image) ==> media(s.push(x)).len() == 0,
{
    assert(s.push(x).drop_last() =~= s);
    if media(s).len() == 0 && (x is Text || x is Image) {
        assert(media(s.push(x)) =~= seq![x]);
    }
}

/// The one text block among the text and image blocks of `bs`, when there is
/// exactly one such block and it is text.
fn lone_text(bs: &Vec<Content>) -> (r: Option<&String>)
    ensures
        ({
            let md = media(contents_view(bs@));
            match r {
                Some(t) => md.len() == 1 && md[0] is Text && md[0]->Text_text == t@,
                None => !(md.len() == 1 && md[0] is Text),
            }
        }),
{
    let ghost cv = contents_view(bs@);
    let mut first: Option<usize> = None;
    let mut count: usize = 0;
    let mut i: usize = 0;
    while i < bs.len()
        invariant
            0 <= i <= bs.len(),
            cv == contents_view(bs@),
            count == media(cv.take(i as int)).len(),
            count <= i,
            count == 0 <==> first is None,
            first matches Some(j) ==> j < i && media(cv.take(i as int))[0] == cv[j as int],
        decreases bs.len() - i,
    {
        assert(cv.take(i + 1) =~= cv.take(i as int).push(cv[i as int]));
        proof {
            lemma_media_push_first(cv.take(i as int), cv[i as int]);
            assert(cv.take(i + 1).drop_last() =~= cv.take(i as int));
        }
        assert(cv[i as int] == bs@[i as int]@);
        let keep = match &bs[i] {
            Content::Text { .. } => true,
            Content::Image { .. } => true,
            _ => false,
        };
        if keep {
            if count == 0 {
                first = Some(i);
            }
            count = count + 1;
        }
        i = i + 1;
    }
    assert(cv.take(bs.len() as int) =~= cv);
    if count == 1 {
        match first {
            Some(j) => {
                assert(cv[j as int] == bs@[j as int]@);
                match &bs[j] {
                    Content::Text { text } => Some(text),
                    _ => None,
                }
            },
            None => None,
        }
    } else {
        None
    }
}

fn push_assistant_items(out: &mut String, bs: &Vec<Content>) -> (n: usize)
    ensures
        n == assistant_items(contents_view(bs@)).len(),
        final(out)@ == old(out)@ + comma_join(assistant_items(contents_view(bs@))),
{
    let ghost head = out@;
    let ghost cv = contents_view(bs@);
    let mut n: usize = 0;
    let mut i: usize = 0;
    while i < bs.len()
        invariant
            0 <= i <= bs.len(),
            cv == contents_view(bs@),
            n == assistant_items(cv.take(i as int)).len(),
            n <= i,
            out@ == head + comma_join(assistant_items(cv.take(i as int))),
        decreases bs.len() - i,
    {
        let ghost a0 = assistant_items(cv.take(i as int));
        assert(cv.take(i + 1).drop_last() =~= cv.take(i as int));
        assert(cv.take(i + 1).last() == bs@[i as int]@);
        let keep = match &bs[i] {
            Content::Text { .. } => true,
            Content::ToolCall { .. } => true,
            _ => false,
        };
        if keep {
            if n > 0 {
                push_char(out, ',');
            }
            push_assistant_item(out, &bs[i]);
            proof {
                let x = assistant_item(bs@[i as int]@)->0;
                lemma_comma_join_push(a0, x);
                assert(assistant_items(cv.take(i + 1)) == a0.push(x));
            }
            n = n + 1;
        } else {
            assert(assistant_items(cv.take(i + 1)) == a0);
        }
        i = i + 1;
    }
    assert(cv.take(bs.len() as int) =~= cv);
    n
}

fn push_assistant_item(out: &mut String, b: &Content)
    requires
        b@ is Text || b@ is ToolCall,
    ensures
        final(out)@ == old(out)@ + assistant_item(b@)->0,
{
    let ghost before = out@;
    match b {
        Content::Text { text } => {
            push_str(out, "{\"content\":[{\"text\":");
            push_json_string(out, text.as_str());
            push_str(out, ",\"type\":\"output_text\"}],\"role\":\"assistant\",\"type\":\"message\"}");
        },
        Content::ToolCall { id, name, arguments } => {
            push_str(out, "{\"arguments\":");
            push_json_string(out, arguments.as_str());
            push_str(out, ",\"call_id\":");
            push_json_string(out, id.as_str());
            push_str(out, ",\"name\":");
            push_json_string(out, name.as_str());
            push_str(out, ",\"type\":\"function_call\"}");
        },
        _ => {},
    }
    assert(out@ =~= before + assistant_item(b@)->0);
}

/// Writes the input items of one message joined with commas; returns how many there are.
fn push_az_items(out: &mut String, m: &Message) -> (n: usize)
    ensures
        n == az_items(m@).len(),
        final(out)@ == old(out)@ + comma_join(az_items(m@)),
{
    let ghost before = out@;
    match m {
        Message::User { content, .. } => {
            push_str(out, "{\"content\":");
            match lone_text(content) {
                Some(t) => {
                    push_json_string(out, t.as_str());
                },
                None => {
                    let _ = push_input_parts(out, content);
                },
            }
            push_str(out, ",\"role\":\"user\"}");
            assert(out@ =~= before + az_items(m@)[0]);
            1
        },
        Message::Assistant { content, .. } => push_assistant_items(out, content),
        Message::ToolResult { tool_call_id, content, .. } => {
            push_str(out, "{\"call_id\":");
            push_json_string(out, tool_call_id.as_str());
            push_str(out, ",\"output\":");
            if is_image_free(content) {
                let t = first_text(content);
                push_json_string(out, t.as_str());
            } else {
                let _ = push_input_parts(out, content);
            }
            push_str(out, ",\"type\":\"function_call_output\"}");
            assert(out@ =~= before + az_items(m@)[0]);
            1
        },
    }
}

proof fn lemma_comma_join_concat(a: Seq<Seq<char>>, b: Seq<Seq<char>>)
    ensures
        comma_join(a + b) == if a.len() == 0 {
            comma_join(b)
        } else if b.len() == 0 {
            comma_join(a)
        } else {
            comma_join(a) + seq![','] + comma_join(b)
        },
    decreases b.len(),
{
    if b.len() == 0 {
        assert(a + b =~= a);
    } else {
        lemma_comma_join_concat(a, b.drop_last());
        assert(a + b =~= (a + b.drop_last()).push(b.last()));
        lemma_comma_join_push(a + b.drop_last(), b.last());
        lemma_comma_join_push(b.drop_last(), b.last());
        assert(b.drop_last().push(b.last()) =~= b);
    }
}

fn push_all_items(out: &mut String, ms: &Vec<Message>)
    ensures
        final(out)@ == old(out)@ + comma_join(all_items(messages_view(ms@))),
{
    let ghost head = out@;
    let ghost mv = messages_view(ms@);
    let mut any = false;
    let mut i: usize = 0;
    while i < ms.len()
        invariant
            0 <= i <= ms.len(),
            mv == messages_view(ms@),
            any == (all_items(mv.take(i as int)).len() > 0),
            out@ == head + comma_join(all_items(mv.take(i as int))),
        decreases ms.len() - i,
    {
        let ghost a0 = all_items(mv.take(i as int));
        assert(mv.take(i + 1).drop_last() =~= mv.take(i as int));
        assert(mv.take(i + 1).last() == ms@[i as int]@);
        let mut tmp = String::new();
        let n = push_az_items(&mut tmp, &ms[i]);
        if n > 0 {
            if any {
                push_char(out, ',');
            }
            push_str(out, tmp.as_str());
        }
        proof {
            let x = az_items(ms@[i as int]@);
            lemma_comma_join_concat(a0, x);
            assert(all_items(mv.take(i + 1)) == a0 + x);
            if x.len() == 0 {
                assert(a0 + x =~= a0);
            }
        }
        any = any || n > 0;
        i = i + 1;
    }
    assert(mv.take(ms.len() as int) =~= mv);
}

fn push_az_tool(out: &mut String, t: &ToolDefinition)
    ensures
        final(out)@ == old(out)@ + az_tool(*t),
{
    let ghost before = out@;
    push_str(out, "{\"description\":");
    push_json_string(out, t.description.as_str());
    push_str(out, ",\"name\":");
    push_json_string(out, t.name.as_str());
    push_str(out, ",\"parameters\":");
    push_str(out, t.parameters.as_str());
    push_str(out, ",\"type\":\"function\"}");
    assert(out@ =~= before + az_tool(*t));
}

fn push_az_tools(out: &mut String, ts: &Vec<ToolDefinition>)
    ensures
        final(out)@ == old(out)@ + comma_join(ts@.map_values(|t: ToolDefinition| az_tool(t))),
{
    let ghost head = out@;
    let ghost items = ts@.map_values(|t: ToolDefinition| az_tool(t));
    let mut k: usize = 0;
    while k < ts.len()
        invariant
            0 <= k <= ts.len(),
            items == ts@.map_values(|t: ToolDefinition| az_tool(t)),
            out@ == head + comma_join(items.take(k as int)),
        decreases ts.len() - k,
    {
        if k > 0 {
            push_char(out, ',');
        }
        push_az_tool(out, &ts[k]);
        proof {
            assert(items[k as int] == az_tool(ts@[k as int]));
            assert(items.take(k + 1) =~= items.take(k as int).push(items[k as int]));
            lemma_comma_join_push(items.take(k as int), items[k as int]);
            assert(out@ =~= head + comma_join(items.take(k + 1)));
        }
        k = k + 1;
    }
    assert(items.take(ts.len() as int) =~= items);
}

fn push_az_settings(out: &mut String, r: &StreamRequest)
    ensures
        final(out)@ == old(out)@ + az_settings(*r),
{
    let ghost before = out@;
    if crate::strs::chars_of(r.system_prompt.as_str()).len() > 0 {
        push_str(out, ",\"instructions\":");
        push_json_string(out, r.system_prompt.as_str());
    }
    let ghost mid = out@;
    if let Some(m) = r.max_tokens {
        push_str(out, ",\"max_output_tokens\":");
        push_decimal(out, m as u64);
    }
    assert(out@ =~= before + az_settings(*r));
}

/// The Responses API request body: the conversation as input items, the
/// system prompt as instructions, the output limit when the request sets one,
/// the model, streaming, the temperature and the tools.
pub fn build_azure_request_body(r: &StreamRequest) -> (body: String)
    ensures
        body@ == azure_body(*r),
{
    let mut out = to_owned_string("{\"input\":[");
    push_all_items(&mut out, &r.messages);
    push_char(&mut out, ']');
    push_az_settings(&mut out, r);
    push_str(&mut out, ",\"model\":");
    push_json_string(&mut out, r.model.as_str());
    push_str(&mut out, ",\"stream\":true");
    push_temperature(&mut out, &r.temperature);
    if r.tools.len() > 0 {
        push_str(&mut out, ",\"tools\":[");
        push_az_tools(&mut out, &r.tools);
        push_char(&mut out, ']');
    }
    push_char(&mut out, '}');
    assert(out@ =~= azure_body(*r));
    out
}

} // verus!
