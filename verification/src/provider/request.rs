//! What a provider call asks for, and the Anthropic Messages request body it
//! becomes. Bodies are written as compact JSON with the keys of each object in
//! sorted order, as `serde_json` writes its maps.
use vstd::prelude::*;
use crate::types::{Content, ContentV, Message, MessageV, contents_view};
use crate::json::{json_string, push_json_string};
use crate::strs::{decimal, push_char, push_decimal, push_str, to_owned_string, opt_slice_view, has_substring, occurs_at};

verus! {

broadcast use vstd::string::group_string_axioms;

/// A tool as the model is told of it: name, description, and the JSON text
/// of its parameters' schema.
pub struct ToolDefinition {
    pub name: String,
    pub description: String,
    pub parameters: String,
}

/// How much the model may think before answering.
#[derive(PartialEq, Eq, Structural, Clone, Copy, Debug)]
pub enum ThinkingLevel {
    Off,
    Minimal,
    Low,
    Medium,
    High,
}

/// Where prompt-cache breakpoints go.
#[derive(PartialEq, Eq, Structural, Clone, Copy, Debug)]
pub enum CacheStrategy {
    /// On the system prompt, the tools and the conversation.
    Auto,
    /// Nowhere.
    Disabled,
    /// Where chosen.
    Manual { cache_system: bool, cache_tools: bool, cache_messages: bool },
}

/// Prompt caching settings.
#[derive(PartialEq, Eq, Structural, Clone, Copy, Debug)]
pub struct CacheConfig {
    pub enabled: bool,
    pub strategy: CacheStrategy,
}

impl Default for CacheConfig {
    fn default() -> (r: Self)
        ensures
            r == (CacheConfig { enabled: true, strategy: CacheStrategy::Auto }),
    {
        CacheConfig { enabled: true, strategy: CacheStrategy::Auto }
    }
}

/// Everything one request to a model carries.
pub struct StreamRequest {
    pub model: String,
    pub system_prompt: String,
    pub messages: Vec<Message>,
    pub tools: Vec<ToolDefinition>,
    pub thinking_level: ThinkingLevel,
    /// Overrides the default output limit.
    pub max_tokens: Option<u32>,
    /// The sampling temperature, as the JSON number text it is sent as.
    pub temperature: Option<String>,
    pub cache_config: CacheConfig,
}

/// The cache breakpoints in effect: (system, tools, conversation).
pub open spec fn cache_points(c: CacheConfig) -> (bool, bool, bool) {
    let on = c.enabled && c.strategy != CacheStrategy::Disabled;
    match c.strategy {
        CacheStrategy::Auto => (on, on, on),
        CacheStrategy::Disabled => (false, false, false),
        CacheStrategy::Manual { cache_system, cache_tools, cache_messages } => (
            on && cache_system,
            on && cache_tools,
            on && cache_messages,
        ),
    }
}

/// The thinking budget of a level.
pub open spec fn thinking_budget(t: ThinkingLevel) -> nat {
    match t {
        ThinkingLevel::Off => 0,
        ThinkingLevel::Minimal => 128,
        ThinkingLevel::Low => 512,
        ThinkingLevel::Medium => 2048,
        ThinkingLevel::High => 8192,
    }
}

/// The items joined with commas.
pub open spec fn comma_join(items: Seq<Seq<char>>) -> Seq<char>
    decreases items.len(),
{
    if items.len() == 0 {
        seq![]
    } else if items.len() == 1 {
        items[0]
    } else {
        comma_join(items.drop_last()) + seq![','] + items.last()
    }
}

/// The cache marker that opens an object when `cached`.
pub open spec fn cache_mark(cached: bool) -> Seq<char> {
    if cached {
        "\"cache_control\":{\"type\":\"ephemeral\"},"@
    } else {
        seq![]
    }
}

/// A content block as the Messages API takes it.
pub open spec fn block_json(b: ContentV, cached: bool) -> Seq<char> {
    match b {
        ContentV::Text { text } => seq!['{'] + cache_mark(cached) + "\"text\":"@ + json_string(text) + ",\"type\":\"text\"}"@,
        ContentV::Image { data, mime_type } => seq!['{'] + cache_mark(cached) + "\"source\":{\"data\":"@ + json_string(data)
            + ",\"media_type\":"@ + json_string(mime_type) + ",\"type\":\"base64\"},\"type\":\"image\"}"@,
        ContentV::Thinking { thinking, signature } => seq!['{'] + cache_mark(cached) + "\"signature\":"@
            + json_string(match signature { Some(s) => s, None => seq![] }) + ",\"thinking\":"@ + json_string(thinking)
            + ",\"type\":\"thinking\"}"@,
        ContentV::ToolCall { id, name, arguments } => seq!['{'] + cache_mark(cached) + "\"id\":"@ + json_string(id)
            + ",\"input\":"@ + arguments + ",\"name\":"@ + json_string(name) + ",\"type\":\"tool_use\"}"@,
    }
}

/// The blocks of `bs`, the last one marked for caching when `cache_last`.
pub open spec fn block_items(bs: Seq<ContentV>, cache_last: bool) -> Seq<Seq<char>> {
    Seq::new(bs.len(), |i: int| block_json(bs[i], cache_last && i == bs.len() - 1))
}

/// A content array.
pub open spec fn blocks_json(bs: Seq<ContentV>, cache_last: bool) -> Seq<char> {
    seq!['['] + comma_join(block_items(bs, cache_last)) + seq![']']
}

/// Some block of `bs` is an image.
pub open spec fn has_image(bs: Seq<ContentV>) -> bool {
    exists|i: int| 0 <= i < bs.len() && (#[trigger] bs[i]) is Image
}

/// The text of the first text block of `bs`, empty when there is none.
pub open spec fn first_text_of(bs: Seq<ContentV>) -> Seq<char>
    decreases bs.len(),
{
    if bs.len() == 0 {
        seq![]
    } else {
        match bs[0] {
            ContentV::Text { text } => text,
            _ => first_text_of(bs.drop_first()),
        }
    }
}

/// The content of a tool result: its blocks when it holds an image, else its
/// first text as a string.
pub open spec fn tool_result_content(bs: Seq<ContentV>) -> Seq<char> {
    if has_image(bs) {
        blocks_json(bs, false)
    } else {
        json_string(first_text_of(bs))
    }
}

/// A message as the Messages API takes it; `cached` marks its last block.
pub open spec fn message_json(m: MessageV, cached: bool) -> Seq<char> {
    match m {
        MessageV::User { content, .. } => "{\"content\":"@ + blocks_json(content, cached) + ",\"role\":\"user\"}"@,
        MessageV::Assistant { content, .. } => "{\"content\":"@ + blocks_json(content, cached) + ",\"role\":\"assistant\"}"@,
        MessageV::ToolResult { tool_call_id, content, is_error, .. } => "{\"content\":[{"@ + cache_mark(cached)
            + "\"content\":"@ + tool_result_content(content) + ",\"is_error\":"@ + (if is_error { "true"@ } else { "false"@ })
            + ",\"tool_use_id\":"@ + json_string(tool_call_id) + ",\"type\":\"tool_result\"}],\"role\":\"user\"}"@,
    }
}


/// The conversation, the next-to-last message's last block marked for caching
/// when `cache` and there are at least two messages.
pub open spec fn messages_items(ms: Seq<MessageV>, cache: bool) -> Seq<Seq<char>> {
    Seq::new(ms.len(), |i: int| message_json(ms[i], cache && ms.len() >= 2 && i == ms.len() - 2))
}

/// A system block.
pub open spec fn system_block(text: Seq<char>, cached: bool) -> Seq<char> {
    seq!['{'] + cache_mark(cached) + "\"text\":"@ + json_string(text) + ",\"type\":\"text\"}"@
}

/// The system field, if any: the client identity (sent with an OAuth token)
/// and then the prompt; otherwise the prompt alone, when there is one. The
/// last block is marked for caching when `cache`.
pub open spec fn system_field(prompt: Seq<char>, identity: Option<Seq<char>>, cache: bool) -> Seq<char> {
    match identity {
        Some(id) => if prompt.len() == 0 {
            ",\"system\":["@ + system_block(id, cache) + seq![']']
        } else {
            ",\"system\":["@ + system_block(id, false) + seq![','] + system_block(prompt, cache) + seq![']']
        },
        None => if prompt.len() > 0 {
            ",\"system\":["@ + system_block(prompt, cache) + seq![']']
        } else {
            seq![]
        },
    }
}

/// A tool definition; `cached` marks it.
pub open spec fn tool_json(name: Seq<char>, description: Seq<char>, parameters: Seq<char>, cached: bool) -> Seq<char> {
    seq!['{'] + cache_mark(cached) + "\"description\":"@ + json_string(description) + ",\"input_schema\":"@ + parameters
        + ",\"name\":"@ + json_string(name) + seq!['}']
}

/// The tools, the last one marked for caching when `cache`.
pub open spec fn tools_items(ts: Seq<ToolDefinition>, cache: bool) -> Seq<Seq<char>> {
    Seq::new(ts.len(), |i: int| tool_json(ts[i].name@, ts[i].description@, ts[i].parameters@, cache && i == ts.len() - 1))
}

/// The temperature field, if set.
pub open spec fn temperature_field(t: Option<String>) -> Seq<char> {
    match t {
        Some(x) => ",\"temperature\":"@ + x@,
        None => seq![],
    }
}

/// The thinking field, unless thinking is off.
pub open spec fn thinking_field(level: ThinkingLevel) -> Seq<char> {
    if level != ThinkingLevel::Off {
        ",\"thinking\":{\"budget_tokens\":"@ + decimal(thinking_budget(level)) + ",\"type\":\"enabled\"}"@
    } else {
        seq![]
    }
}

/// The tools field, when there are tools.
pub open spec fn tools_field(ts: Seq<ToolDefinition>, cache: bool) -> Seq<char> {
    if ts.len() > 0 {
        ",\"tools\":["@ + comma_join(tools_items(ts, cache)) + seq![']']
    } else {
        seq![]
    }
}

/// The values of a list of messages.
pub open spec fn messages_view(v: Seq<Message>) -> Seq<MessageV> {
    v.map_values(|m: Message| m@)
}

/// The Messages API request body for `r`.
pub open spec fn anthropic_body(r: StreamRequest, identity: Option<Seq<char>>) -> Seq<char> {
    let (cs, ct, cm) = cache_points(r.cache_config);
    let max = match r.max_tokens {
        Some(m) => m as nat,
        None => 8192,
    };
    "{\"max_tokens\":"@ + decimal(max) + ",\"messages\":["@ + comma_join(messages_items(messages_view(r.messages@), cm))
        + "],\"model\":"@ + json_string(r.model@) + ",\"stream\":true"@ + system_field(r.system_prompt@, identity, cs)
        + temperature_field(r.temperature) + thinking_field(r.thinking_level) + tools_field(r.tools@, ct) + seq!['}']
}

fn push_cache_mark(out: &mut String, cached: bool)
    ensures
        final(out)@ == old(out)@ + cache_mark(cached),
{
    if cached {
        push_str(out, "\"cache_control\":{\"type\":\"ephemeral\"},");
    } else {
        assert(old(out)@ + cache_mark(cached) =~= old(out)@);
    }
}

fn push_block(out: &mut String, b: &Content, cached: bool)
    ensures
        final(out)@ == old(out)@ + block_json(b@, cached),
{
    let ghost before = out@;
    push_char(out, '{');
    push_cache_mark(out, cached);
    match b {
        Content::Text { text } => {
            push_str(out, "\"text\":");
            push_json_string(out, text.as_str());
            push_str(out, ",\"type\":\"text\"}");
        },
        Content::Image { data, mime_type } => {
            push_str(out, "\"source\":{\"data\":");
            push_json_string(out, data.as_str());
            push_str(out, ",\"media_type\":");
            push_json_string(out, mime_type.as_str());
            push_str(out, ",\"type\":\"base64\"},\"type\":\"image\"}");
        },
        Content::Thinking { thinking, signature } => {
            push_str(out, "\"signature\":");
            match signature {
                Some(s) => push_json_string(out, s.as_str()),
                None => {
                    let e = String::new();
                    push_json_string(out, e.as_str());
                },
            }
            push_str(out, ",\"thinking\":");
            push_json_string(out, thinking.as_str());
            push_str(out, ",\"type\":\"thinking\"}");
        },
        Content::ToolCall { id, name, arguments } => {
            push_str(out, "\"id\":");
            push_json_string(out, id.as_str());
            push_str(out, ",\"input\":");
            push_str(out, arguments.as_str());
            push_str(out, ",\"name\":");
            push_json_string(out, name.as_str());
            push_str(out, ",\"type\":\"tool_use\"}");
        },
    }
    assert(out@ =~= before + block_json(b@, cached));
}

pub(crate) proof fn lemma_comma_join_push(items: Seq<Seq<char>>, x: Seq<char>)
    ensures
        comma_join(items.push(x)) == if items.len() == 0 { x } else { comma_join(items) + seq![','] + x },
{
    assert(items.push(x).drop_last() =~= items);
}

fn push_blocks(out: &mut String, bs: &Vec<Content>, cache_last: bool)
    ensures
        final(out)@ == old(out)@ + blocks_json(contents_view(bs@), cache_last),
{
    let ghost before = out@;
    let ghost cv = contents_view(bs@);
    push_char(out, '[');
    let mut i: usize = 0;
    while i < bs.len()
        invariant
            0 <= i <= bs.len(),
            cv == contents_view(bs@),
            out@ == before + seq!['['] + comma_join(block_items(cv, cache_last).take(i as int)),
        decreases bs.len() - i,
    {
        let ghost mid = out@;
        if i > 0 {
            push_char(out, ',');
        }
        push_block(out, &bs[i], cache_last && i == bs.len() - 1);
        proof {
            let items = block_items(cv, cache_last);
            assert(items.take(i + 1) =~= items.take(i as int).push(items[i as int]));
            lemma_comma_join_push(items.take(i as int), items[i as int]);
            assert(cv[i as int] == bs@[i as int]@);
            assert(out@ =~= before + seq!['['] + comma_join(items.take(i + 1)));
        }
        i = i + 1;
    }
    assert(block_items(cv, cache_last).take(bs.len() as int) =~= block_items(cv, cache_last));
    push_char(out, ']');
}

pub(crate) fn is_image_free(bs: &Vec<Content>) -> (r: bool)
    ensures
        r == !has_image(contents_view(bs@)),
{
    let ghost cv = contents_view(bs@);
    let mut i: usize = 0;
    while i < bs.len()
        invariant
            0 <= i <= bs.len(),
            cv == contents_view(bs@),
            forall|j: int| 0 <= j < i ==> !(#[trigger] cv[j] is Image),
        decreases bs.len() - i,
    {
        assert(cv[i as int] == bs@[i as int]@);
        if let Content::Image { .. } = &bs[i] {
            return false;
        }
        i = i + 1;
    }
    true
}

pub(crate) fn first_text(bs: &Vec<Content>) -> (r: String)
    ensures
        r@ == first_text_of(contents_view(bs@)),
{
    let ghost cv = contents_view(bs@);
    let mut i: usize = 0;
    assert(cv.skip(0) =~= cv);
    while i < bs.len()
        invariant
            0 <= i <= bs.len(),
            cv == contents_view(bs@),
            first_text_of(cv) == first_text_of(cv.skip(i as int)),
        decreases bs.len() - i,
    {
        assert(cv.skip(i as int)[0] == bs@[i as int]@);
        assert(cv.skip(i as int).drop_first() =~= cv.skip(i + 1));
        if let Content::Text { text } = &bs[i] {
            return crate::strs::copy_string(text);
        }
        i = i + 1;
    }
    String::new()
}

fn push_message(out: &mut String, m: &Message, cached: bool)
    ensures
        final(out)@ == old(out)@ + message_json(m@, cached),
{
    let ghost before = out@;
    match m {
        Message::User { content, .. } => {
            push_str(out, "{\"content\":");
            push_blocks(out, content, cached);
            push_str(out, ",\"role\":\"user\"}");
        },
        Message::Assistant { content, .. } => {
            push_str(out, "{\"content\":");
            push_blocks(out, content, cached);
            push_str(out, ",\"role\":\"assistant\"}");
        },
        Message::ToolResult { tool_call_id, content, is_error, .. } => {
            push_str(out, "{\"content\":[{");
            push_cache_mark(out, cached);
            push_str(out, "\"content\":");
            if is_image_free(content) {
                let t = first_text(content);
                push_json_string(out, t.as_str());
            } else {
                push_blocks(out, content, false);
            }
            push_str(out, ",\"is_error\":");
            if *is_error {
                push_str(out, "true");
            } else {
                push_str(out, "false");
            }
            push_str(out, ",\"tool_use_id\":");
            push_json_string(out, tool_call_id.as_str());
            push_str(out, ",\"type\":\"tool_result\"}],\"role\":\"user\"}");
        },
    }
    assert(out@ =~= before + message_json(m@, cached));
}

fn push_system_block(out: &mut String, text: &str, cached: bool)
    ensures
        final(out)@ == old(out)@ + system_block(text@, cached),
{
    let ghost before = out@;
    push_char(out, '{');
    push_cache_mark(out, cached);
    push_str(out, "\"text\":");
    push_json_string(out, text);
    push_str(out, ",\"type\":\"text\"}");
    assert(out@ =~= before + system_block(text@, cached));
}

fn push_tool(out: &mut String, t: &ToolDefinition, cached: bool)
    ensures
        final(out)@ == old(out)@ + tool_json(t.name@, t.description@, t.parameters@, cached),
{
    let ghost before = out@;
    push_char(out, '{');
    push_cache_mark(out, cached);
    push_str(out, "\"description\":");
    push_json_string(out, t.description.as_str());
    push_str(out, ",\"input_schema\":");
    push_str(out, t.parameters.as_str());
    push_str(out, ",\"name\":");
    push_json_string(out, t.name.as_str());
    push_char(out, '}');
    assert(out@ =~= before + tool_json(t.name@, t.description@, t.parameters@, cached));
}

fn push_messages(out: &mut String, ms: &Vec<Message>, cm: bool)
    ensures
        final(out)@ == old(out)@ + comma_join(messages_items(messages_view(ms@), cm)),
{
    let ghost head = out@;
    let ghost mv = messages_view(ms@);
    let n = ms.len();
    let mut i: usize = 0;
    while i < n
        invariant
            0 <= i <= n,
            n == ms.len(),
            mv == messages_view(ms@),
            out@ == head + comma_join(messages_items(mv, cm).take(i as int)),
        decreases n - i,
    {
        if i > 0 {
            push_char(out, ',');
        }
        push_message(out, &ms[i], cm && n >= 2 && i == n - 2);
        proof {
            let items = messages_items(mv, cm);
            assert(items.take(i + 1) =~= items.take(i as int).push(items[i as int]));
            lemma_comma_join_push(items.take(i as int), items[i as int]);
            assert(mv[i as int] == ms@[i as int]@);
            assert(out@ =~= head + comma_join(items.take(i + 1)));
        }
        i = i + 1;
    }
    assert(messages_items(mv, cm).take(n as int) =~= messages_items(mv, cm));
}

fn push_tools(out: &mut String, ts: &Vec<ToolDefinition>, ct: bool)
    ensures
        final(out)@ == old(out)@ + comma_join(tools_items(ts@, ct)),
{
    let ghost th = out@;
    let nt = ts.len();
    let mut k: usize = 0;
    while k < nt
        invariant
            0 <= k <= nt,
            nt == ts.len(),
            out@ == th + comma_join(tools_items(ts@, ct).take(k as int)),
        decreases nt - k,
    {
        if k > 0 {
            push_char(out, ',');
        }
        push_tool(out, &ts[k], ct && k == nt - 1);
        proof {
            let items = tools_items(ts@, ct);
            assert(items.take(k + 1) =~= items.take(k as int).push(items[k as int]));
            lemma_comma_join_push(items.take(k as int), items[k as int]);
            assert(out@ =~= th + comma_join(items.take(k + 1)));
        }
        k = k + 1;
    }
    assert(tools_items(ts@, ct).take(nt as int) =~= tools_items(ts@, ct));
}

fn push_system(out: &mut String, prompt: &String, identity: Option<&str>, cs: bool)
    ensures
        final(out)@ == old(out)@ + system_field(prompt@, opt_slice_view(identity), cs),
{
    let ghost before = out@;
    let prompt_empty = crate::strs::chars_of(prompt.as_str()).len() == 0;
    match identity {
        Some(id) => {
            push_str(out, ",\"system\":[");
            if prompt_empty {
                push_system_block(out, id, cs);
            } else {
                push_system_block(out, id, false);
                push_char(out, ',');
                push_system_block(out, prompt.as_str(), cs);
            }
            push_char(out, ']');
        },
        None => {
            if !prompt_empty {
                push_str(out, ",\"system\":[");
                push_system_block(out, prompt.as_str(), cs);
                push_char(out, ']');
            }
        },
    }
    assert(out@ =~= before + system_field(prompt@, opt_slice_view(identity), cs));
}

pub(crate) fn push_temperature(out: &mut String, t: &Option<String>)
    ensures
        final(out)@ == old(out)@ + temperature_field(*t),
{
    let ghost b0 = out@;
    if let Some(x) = t {
        push_str(out, ",\"temperature\":");
        push_str(out, x.as_str());
    }
    assert(out@ =~= b0 + temperature_field(*t));
}

fn push_thinking(out: &mut String, level: ThinkingLevel)
    ensures
        final(out)@ == old(out)@ + thinking_field(level),
{
    let ghost b0 = out@;
    if level != ThinkingLevel::Off {
        let budget: u64 = match level {
            ThinkingLevel::Minimal => 128,
            ThinkingLevel::Low => 512,
            ThinkingLevel::Medium => 2048,
            ThinkingLevel::High => 8192,
            ThinkingLevel::Off => 0,
        };
        push_str(out, ",\"thinking\":{\"budget_tokens\":");
        push_decimal(out, budget);
        push_str(out, ",\"type\":\"enabled\"}");
    }
    assert(out@ =~= b0 + thinking_field(level));
}

fn push_tools_field(out: &mut String, ts: &Vec<ToolDefinition>, ct: bool)
    ensures
        final(out)@ == old(out)@ + tools_field(ts@, ct),
{
    let ghost b0 = out@;
    if ts.len() > 0 {
        push_str(out, ",\"tools\":[");
        push_tools(out, ts, ct);
        push_char(out, ']');
    }
    assert(out@ =~= b0 + tools_field(ts@, ct));
}

/// The Messages API request body: the conversation, model, output limit and
/// streaming flag, the system prompt (behind the client identity `identity`,
/// which an OAuth token must present), temperature, thinking budget and tools, with prompt-cache
/// breakpoints on the system prompt, the last tool and the next-to-last
/// message as the cache settings ask.
pub fn build_request_body(r: &StreamRequest, identity: Option<&str>) -> (body: String)
    ensures
        body@ == anthropic_body(*r, opt_slice_view(identity)),
{
    let on = r.cache_config.enabled && r.cache_config.strategy != CacheStrategy::Disabled;
    let (cs, ct, cm) = match r.cache_config.strategy {
        CacheStrategy::Auto => (on, on, on),
        CacheStrategy::Disabled => (false, false, false),
        CacheStrategy::Manual { cache_system, cache_tools, cache_messages } => (on && cache_system, on && cache_tools, on && cache_messages),
    };
    assert((cs, ct, cm) == cache_points(r.cache_config));
    let mut out = to_owned_string("{\"max_tokens\":");
    match r.max_tokens {
        Some(m) => push_decimal(&mut out, m as u64),
        None => push_decimal(&mut out, 8192),
    }
    push_str(&mut out, ",\"messages\":[");
    push_messages(&mut out, &r.messages, cm);
    push_str(&mut out, "],\"model\":");
    push_json_string(&mut out, r.model.as_str());
    push_str(&mut out, ",\"stream\":true");
    push_system(&mut out, &r.system_prompt, identity, cs);
    push_temperature(&mut out, &r.temperature);
    push_thinking(&mut out, r.thinking_level);
    push_tools_field(&mut out, &r.tools, ct);
    push_char(&mut out, '}');
    assert(out@ =~= anthropic_body(*r, opt_slice_view(identity)));
    out
}

/// What a tool result's block carries for its error flag and the call it answers.
pub open spec fn flag_marker(is_error: bool, tool_call_id: Seq<char>) -> Seq<char> {
    ",\"is_error\":"@ + (if is_error { "true"@ } else { "false"@ }) + ",\"tool_use_id\":"@ + json_string(tool_call_id)
}

proof fn lemma_occurs_in_concat(a: Seq<char>, x: Seq<char>, b: Seq<char>, p: Seq<char>, i: int)
    requires
        occurs_at(x, p, i),
    ensures
        occurs_at(a + x + b, p, a.len() + i),
{
    assert((a + x + b).subrange(a.len() + i, a.len() + i + p.len()) =~= x.subrange(i, i + p.len()));
}

proof fn lemma_occurs_append(s: Seq<char>, t: Seq<char>, p: Seq<char>, i: int)
    requires
        occurs_at(s, p, i),
    ensures
        occurs_at(s + t, p, i),
{
    assert((s + t).subrange(i, i + p.len()) =~= s.subrange(i, i + p.len()));
}

proof fn lemma_comma_join_has(items: Seq<Seq<char>>, k: int) -> (j: int)
    requires
        0 <= k < items.len(),
    ensures
        occurs_at(comma_join(items), items[k], j),
    decreases items.len(),
{
    if items.len() == 1 {
        assert(comma_join(items).subrange(0, items[k].len() as int) =~= items[k]);
        0
    } else if k == items.len() - 1 {
        let pre = comma_join(items.drop_last()) + seq![','];
        assert(items.last().subrange(0, items[k].len() as int) =~= items[k]);
        assert(occurs_at(items.last(), items[k], 0));
        lemma_occurs_in_concat(pre, items.last(), seq![], items[k], 0);
        assert(pre + items.last() + seq![] =~= comma_join(items));
        pre.len() as int
    } else {
        let j0 = lemma_comma_join_has(items.drop_last(), k);
        assert(items.drop_last()[k] == items[k]);
        lemma_occurs_in_concat(seq![], comma_join(items.drop_last()), seq![','] + items.last(), items[k], j0);
        assert(seq![] + comma_join(items.drop_last()) + (seq![','] + items.last()) =~= comma_join(items));
        j0
    }
}

proof fn lemma_message_has_marker(m: MessageV, cached: bool) -> (i0: int)
    requires
        m is ToolResult,
    ensures
        occurs_at(message_json(m, cached), flag_marker(m->ToolResult_is_error, m->ToolResult_tool_call_id), i0),
{
    match m {
        MessageV::ToolResult { tool_call_id, content, is_error, .. } => {
            let marker = flag_marker(is_error, tool_call_id);
            let a = "{\"content\":[{"@ + cache_mark(cached) + "\"content\":"@ + tool_result_content(content);
            let rest = ",\"type\":\"tool_result\"}],\"role\":\"user\"}"@;
            assert(message_json(m, cached) =~= a + marker + rest);
            assert(marker.subrange(0, marker.len() as int) =~= marker);
            assert(occurs_at(marker, marker, 0));
            lemma_occurs_in_concat(a, marker, rest, marker, 0);
            a.len() as int
        },
        _ => 0,
    }
}

/// Every tool result of the conversation is sent with its own error flag: the body
/// holds `"is_error":true` for a failed tool call and `"is_error":false` for a
/// successful one, next to the id of the call it answers.
#[verifier::spinoff_prover]
pub proof fn law_tool_results_keep_error_flag(r: StreamRequest, identity: Option<Seq<char>>, k: int)
    requires
        0 <= k < r.messages@.len(),
        r.messages@[k]@ is ToolResult,
    ensures
        ({
            let m = r.messages@[k]@;
            has_substring(anthropic_body(r, identity), flag_marker(m->ToolResult_is_error, m->ToolResult_tool_call_id))
        }),
{
    let (cs, ct, cm) = cache_points(r.cache_config);
    let ms = messages_view(r.messages@);
    let items = messages_items(ms, cm);
    let m = r.messages@[k]@;
    assert(ms[k] == m);
    let cached = cm && ms.len() >= 2 && k == ms.len() - 2;
    assert(items[k] == message_json(m, cached));
    let marker = flag_marker(m->ToolResult_is_error, m->ToolResult_tool_call_id);
    let i0 = lemma_message_has_marker(m, cached);
    let j = lemma_comma_join_has(items, k);
    let x = comma_join(items);
    assert(x.subrange(j + i0, j + i0 + marker.len()) =~= items[k].subrange(i0, i0 + marker.len()));
    assert(occurs_at(x, marker, j + i0));
    let max: nat = match r.max_tokens {
        Some(v) => v as nat,
        None => 8192,
    };
    let pre = "{\"max_tokens\":"@ + decimal(max) + ",\"messages\":["@;
    lemma_occurs_in_concat(pre, x, seq![], marker, j + i0);
    assert(pre + x + seq![] =~= pre + x);
    let mut acc = pre + x;
    let mut at = pre.len() + j + i0;
    lemma_occurs_append(acc, "],\"model\":"@, marker, at);
    acc = acc + "],\"model\":"@;
    lemma_occurs_append(acc, json_string(r.model@), marker, at);
    acc = acc + json_string(r.model@);
    lemma_occurs_append(acc, ",\"stream\":true"@, marker, at);
    acc = acc + ",\"stream\":true"@;
    lemma_occurs_append(acc, system_field(r.system_prompt@, identity, cs), marker, at);
    acc = acc + system_field(r.system_prompt@, identity, cs);
    lemma_occurs_append(acc, temperature_field(r.temperature), marker, at);
    acc = acc + temperature_field(r.temperature);
    lemma_occurs_append(acc, thinking_field(r.thinking_level), marker, at);
    acc = acc + thinking_field(r.thinking_level);
    lemma_occurs_append(acc, tools_field(r.tools@, ct), marker, at);
    acc = acc + tools_field(r.tools@, ct);
    lemma_occurs_append(acc, seq!['}'], marker, at);
    acc = acc + seq!['}'];
    assert(acc == anthropic_body(r, identity));
}

} // verus!
