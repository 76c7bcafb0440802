//! Decoding the OpenAI Chat Completions chunk stream into an assistant message.
//!
//! Unlike the Anthropic stream, blocks are not announced: the first reasoning
//! fragment opens a thinking block, the first text fragment a text block, and
//! tool calls are collected by their index until the stream ends, when they
//! are appended to the content after every other block.
use vstd::prelude::*;
use crate::types::{Content, ContentV, Message, MessageV, StopReason, Usage, contents_view};
use crate::provider::events::{StreamEvent, StreamEventV, events_view};
use crate::provider::anthropic::opt_event_view;
use crate::provider::model::ThinkingFormat;
use crate::json::{reprint_json, reprinted_json};
use crate::strs::{push_str, to_owned_string, copy_string, str_eq};

verus! {

/// The OpenAI-compatible Chat Completions provider. Its streaming call is driven outside the library;
/// the decoding of what it receives is done by [`OpenAiDecoder`].
pub struct OpenAiCompatProvider;

impl OpenAiCompatProvider {
    /// The identifier this provider reports.
    pub fn provider_id(&self) -> (r: &'static str)
        ensures
            r@ == "openai"@,
    {
        "openai"
    }
}

broadcast use vstd::string::group_string_axioms;

/// A fragment of a tool call in a chunk.
pub struct OpenAiToolCallDelta {
    /// Which of the parallel tool calls the fragment belongs to.
    pub index: u32,
    pub id: Option<String>,
    pub name: Option<String>,
    pub arguments: Option<String>,
}

/// The new content of one choice in a chunk.
pub struct OpenAiDelta {
    pub content: Option<String>,
    /// Reasoning, as OpenAI-style providers send it.
    pub reasoning_content: Option<String>,
    /// Reasoning, as xAI sends it.
    pub reasoning: Option<String>,
    pub tool_calls: Vec<OpenAiToolCallDelta>,
}

/// One choice of a chunk.
pub struct OpenAiChoice {
    pub delta: OpenAiDelta,
    pub finish_reason: Option<String>,
}

/// Token usage, reported in the last chunk.
pub struct OpenAiUsage {
    pub prompt_tokens: u64,
    pub completion_tokens: u64,
    pub total_tokens: u64,
    /// Prompt tokens served from the cache, when the details are present.
    pub cached_tokens: Option<u64>,
    /// Completion tokens spent reasoning, when the details are present.
    pub reasoning_tokens: Option<u64>,
}

/// One streamed chunk.
pub struct OpenAiChunk {
    pub choices: Vec<OpenAiChoice>,
    pub usage: Option<OpenAiUsage>,
}

/// A tool call being collected: its id, name and argument text so far.
pub struct ToolBuffer {
    pub id: String,
    pub name: String,
    pub arguments: String,
}

/// The value of a [`ToolBuffer`].
pub struct ToolBufferV {
    pub id: Seq<char>,
    pub name: Seq<char>,
    pub arguments: Seq<char>,
}

impl View for ToolBuffer {
    type V = ToolBufferV;

    open spec fn view(&self) -> ToolBufferV {
        ToolBufferV { id: self.id@, name: self.name@, arguments: self.arguments@ }
    }
}

/// The values of a list of tool buffers.
pub open spec fn buffers_view(v: Seq<ToolBuffer>) -> Seq<ToolBufferV> {
    v.map_values(|b: ToolBuffer| b@)
}

/// The state of an OpenAI-compatible stream.
pub struct OpenAiDecoder {
    content: Vec<Content>,
    usage: Usage,
    stop_reason: StopReason,
    buffers: Vec<ToolBuffer>,
}

/// The value of an [`OpenAiDecoder`].
pub struct OpenAiDecoderV {
    pub content: Seq<ContentV>,
    pub usage: Usage,
    pub stop_reason: StopReason,
    pub buffers: Seq<ToolBufferV>,
}

impl View for OpenAiDecoder {
    type V = OpenAiDecoderV;

    closed spec fn view(&self) -> OpenAiDecoderV {
        OpenAiDecoderV {
            content: contents_view(self.content@),
            usage: self.usage,
            stop_reason: self.stop_reason,
            buffers: buffers_view(self.buffers@),
        }
    }
}

/// The index of the first thinking block of `c`.
pub open spec fn first_thinking(c: Seq<ContentV>) -> Option<nat>
    decreases c.len(),
{
    if c.len() == 0 {
        None
    } else if c[0] is Thinking {
        Some(0)
    } else {
        match first_thinking(c.drop_first()) {
            Some(i) => Some(i + 1),
            None => None,
        }
    }
}

/// The index of the first text block of `c`.
pub open spec fn first_text(c: Seq<ContentV>) -> Option<nat>
    decreases c.len(),
{
    if c.len() == 0 {
        None
    } else if c[0] is Text {
        Some(0)
    } else {
        match first_text(c.drop_first()) {
            Some(i) => Some(i + 1),
            None => None,
        }
    }
}

/// The index of the thinking block that reasoning goes to: the first one, or
/// a new one at the end.
pub open spec fn thinking_slot(c: Seq<ContentV>) -> nat {
    match first_thinking(c) {
        Some(i) => i,
        None => c.len(),
    }
}

/// The index of the text block that text goes to: the first one, or a new one
/// at the end.
pub open spec fn text_slot(c: Seq<ContentV>) -> nat {
    match first_text(c) {
        Some(i) => i,
        None => c.len(),
    }
}

/// `c` with reasoning `t` appended to its thinking block.
pub open spec fn with_reasoning(c: Seq<ContentV>, t: Seq<char>) -> Seq<ContentV> {
    match first_thinking(c) {
        Some(i) => match c[i as int] {
            ContentV::Thinking { thinking, signature } => c.update(i as int, ContentV::Thinking { thinking: thinking + t, signature }),
            _ => c,
        },
        None => c.push(ContentV::Thinking { thinking: t, signature: None }),
    }
}

/// `c` with text `t` appended to its text block.
pub open spec fn with_text(c: Seq<ContentV>, t: Seq<char>) -> Seq<ContentV> {
    match first_text(c) {
        Some(i) => match c[i as int] {
            ContentV::Text { text } => c.update(i as int, ContentV::Text { text: text + t }),
            _ => c,
        },
        None => c.push(ContentV::Text { text: t }),
    }
}

/// The reasoning a delta carries, in the provider's format.
pub open spec fn reasoning_of(d: OpenAiDelta, format: ThinkingFormat) -> Option<Seq<char>> {
    match format {
        ThinkingFormat::Xai => match d.reasoning {
            Some(r) => Some(r@),
            None => None,
        },
        _ => match d.reasoning_content {
            Some(r) => Some(r@),
            None => None,
        },
    }
}

/// An empty tool buffer.
pub open spec fn empty_buffer() -> ToolBufferV {
    ToolBufferV { id: seq![], name: seq![], arguments: seq![] }
}

/// `b` extended with empty buffers until index `i` exists.
pub open spec fn buffers_upto(b: Seq<ToolBufferV>, i: nat) -> Seq<ToolBufferV> {
    if i < b.len() {
        b
    } else {
        b + Seq::new((i + 1 - b.len()) as nat, |_k: int| empty_buffer())
    }
}

/// The buffers and streamed events after one tool-call fragment; `n` is the
/// number of content blocks, which tool call indices are offset by.
pub open spec fn apply_tool_delta(b: Seq<ToolBufferV>, n: nat, tc: OpenAiToolCallDelta) -> (Seq<ToolBufferV>, Seq<StreamEventV>) {
    let i = tc.index as nat;
    let b1 = buffers_upto(b, i);
    let x0 = b1[i as int];
    let x1 = match tc.id {
        Some(id) => ToolBufferV { id: id@, ..x0 },
        None => x0,
    };
    let x2 = match tc.name {
        Some(nm) => ToolBufferV { name: nm@, ..x1 },
        None => x1,
    };
    let x3 = match tc.arguments {
        Some(a) => ToolBufferV { arguments: x2.arguments + a@, ..x2 },
        None => x2,
    };
    let e1: Seq<StreamEventV> = match tc.name {
        Some(nm) => seq![StreamEventV::ToolCallStart { content_index: (n + i) as usize, id: x1.id, name: nm@ }],
        None => seq![],
    };
    let e2: Seq<StreamEventV> = match tc.arguments {
        Some(a) => seq![StreamEventV::ToolCallDelta { content_index: (n + i) as usize, delta: a@ }],
        None => seq![],
    };
    (b1.update(i as int, x3), e1 + e2)
}

/// The buffers and events after the fragments `tcs`, in order.
pub open spec fn apply_tool_deltas(b: Seq<ToolBufferV>, n: nat, tcs: Seq<OpenAiToolCallDelta>) -> (Seq<ToolBufferV>, Seq<StreamEventV>)
    decreases tcs.len(),
{
    if tcs.len() == 0 {
        (b, seq![])
    } else {
        let (b1, e1) = apply_tool_deltas(b, n, tcs.drop_last());
        let (b2, e2) = apply_tool_delta(b1, n, tcs.last());
        (b2, e1 + e2)
    }
}

/// The stop reason a choice's `finish_reason` names.
pub open spec fn finish_reason_of(r: Seq<char>) -> StopReason {
    if r == "length"@ {
        StopReason::Length
    } else if r == "tool_calls"@ {
        StopReason::ToolUse
    } else {
        StopReason::Stop
    }
}

/// The decoder and the streamed events after one choice: its reasoning, then
/// its text, then its tool-call fragments, then its finish reason.
pub open spec fn apply_choice(d: OpenAiDecoderV, ch: OpenAiChoice, format: ThinkingFormat) -> (OpenAiDecoderV, Seq<StreamEventV>) {
    let (c1, e1): (Seq<ContentV>, Seq<StreamEventV>) = match reasoning_of(ch.delta, format) {
        Some(t) => (
            with_reasoning(d.content, t),
            seq![StreamEventV::ThinkingDelta { content_index: thinking_slot(d.content) as usize, delta: t }],
        ),
        None => (d.content, seq![]),
    };
    let (c2, e2): (Seq<ContentV>, Seq<StreamEventV>) = match ch.delta.content {
        Some(t) => (with_text(c1, t@), seq![StreamEventV::TextDelta { content_index: text_slot(c1) as usize, delta: t@ }]),
        None => (c1, seq![]),
    };
    let (b3, e3) = apply_tool_deltas(d.buffers, c2.len(), ch.delta.tool_calls@);
    let reason = match ch.finish_reason {
        Some(r) => finish_reason_of(r@),
        None => d.stop_reason,
    };
    (OpenAiDecoderV { content: c2, buffers: b3, stop_reason: reason, ..d }, e1 + e2 + e3)
}

/// The decoder and the streamed events after the choices `chs`, in order.
pub open spec fn apply_choices(d: OpenAiDecoderV, chs: Seq<OpenAiChoice>, format: ThinkingFormat) -> (OpenAiDecoderV, Seq<StreamEventV>)
    decreases chs.len(),
{
    if chs.len() == 0 {
        (d, seq![])
    } else {
        let (d1, e1) = apply_choices(d, chs.drop_last(), format);
        let (d2, e2) = apply_choice(d1, chs.last(), format);
        (d2, e1 + e2)
    }
}

/// The usage after a chunk's usage report.
pub open spec fn with_usage(u: Usage, r: Option<OpenAiUsage>) -> Usage {
    match r {
        None => u,
        Some(x) => {
            let u1 = Usage { input: x.prompt_tokens, output: x.completion_tokens, total_tokens: x.total_tokens, ..u };
            let u2 = match x.cached_tokens {
                Some(c) => Usage { cache_read: c, ..u1 },
                None => u1,
            };
            match x.reasoning_tokens {
                Some(t) => Usage { reasoning: t, ..u2 },
                None => u2,
            }
        },
    }
}

/// The decoder and the streamed events after a chunk.
pub open spec fn apply_chunk(d: OpenAiDecoderV, ch: OpenAiChunk, format: ThinkingFormat) -> (OpenAiDecoderV, Seq<StreamEventV>) {
    apply_choices(OpenAiDecoderV { usage: with_usage(d.usage, ch.usage), ..d }, ch.choices@, format)
}

/// The arguments of a collected tool call: its reprint when it parses as JSON,
/// the empty object otherwise.
pub open spec fn call_arguments(text: Seq<char>) -> Seq<char> {
    match reprinted_json(text) {
        Some(t) => t,
        None => seq!['{', '}'],
    }
}

/// The tool calls of the completed message, in index order.
pub open spec fn collected_calls(b: Seq<ToolBufferV>) -> Seq<ContentV> {
    b.map_values(|x: ToolBufferV| ContentV::ToolCall { id: x.id, name: x.name, arguments: call_arguments(x.arguments) })
}

/// The events that close the collected tool calls, placed after `n` blocks.
pub open spec fn closing_events(n: nat, k: nat) -> Seq<StreamEventV> {
    Seq::new(k, |j: int| StreamEventV::ToolCallEnd { content_index: (n + j) as usize })
}

/// The assistant message of a completed stream: tool calls follow the other
/// blocks, and make the stop reason `ToolUse`.
pub open spec fn openai_message(d: OpenAiDecoderV, model: Seq<char>, provider: Seq<char>, timestamp: u64) -> MessageV {
    MessageV::Assistant {
        content: d.content + collected_calls(d.buffers),
        stop_reason: if d.buffers.len() > 0 { StopReason::ToolUse } else { d.stop_reason },
        model,
        provider,
        usage: d.usage,
        timestamp,
        error_message: None,
    }
}

/// Whether an event's data is the `[DONE]` marker that ends the stream.
pub fn is_done_marker(data: &str) -> (r: bool)
    ensures
        r == (data@ == "[DONE]"@),
{
    str_eq(data, "[DONE]")
}

fn first_thinking_exec(c: &Vec<Content>) -> (r: Option<usize>)
    ensures
        match r {
            Some(i) => first_thinking(contents_view(c@)) == Some(i as nat) && i < c.len(),
            None => first_thinking(contents_view(c@)) is None,
        },
{
    let ghost cv = contents_view(c@);
    let mut i: usize = 0;
    assert(cv.skip(0) =~= cv);
    while i < c.len()
        invariant
            0 <= i <= c.len(),
            cv == contents_view(c@),
            first_thinking(cv) == match first_thinking(cv.skip(i as int)) {
                Some(k) => Some((k + i) as nat),
                None => None,
            },
        decreases c.len() - i,
    {
        assert(cv.skip(i as int)[0] == cv[i as int]);
        assert(cv.skip(i as int).drop_first() =~= cv.skip(i + 1));
        if let Content::Thinking { .. } = &c[i] {
            return Some(i);
        }
        i = i + 1;
    }
    assert(cv.skip(i as int).len() == 0);
    None
}

fn first_text_exec(c: &Vec<Content>) -> (r: Option<usize>)
    ensures
        match r {
            Some(i) => first_text(contents_view(c@)) == Some(i as nat) && i < c.len(),
            None => first_text(contents_view(c@)) is None,
        },
{
    let ghost cv = contents_view(c@);
    let mut i: usize = 0;
    assert(cv.skip(0) =~= cv);
    while i < c.len()
        invariant
            0 <= i <= c.len(),
            cv == contents_view(c@),
            first_text(cv) == match first_text(cv.skip(i as int)) {
                Some(k) => Some((k + i) as nat),
                None => None,
            },
        decreases c.len() - i,
    {
        assert(cv.skip(i as int)[0] == cv[i as int]);
        assert(cv.skip(i as int).drop_first() =~= cv.skip(i + 1));
        if let Content::Text { .. } = &c[i] {
            return Some(i);
        }
        i = i + 1;
    }
    assert(cv.skip(i as int).len() == 0);
    None
}

fn add_reasoning(c: &mut Vec<Content>, t: &String) -> (idx: usize)
    ensures
        contents_view(final(c)@) == with_reasoning(contents_view(old(c)@), t@),
        final(c).len() <= old(c).len() + 1,
        idx as nat == thinking_slot(contents_view(old(c)@)),
{
    let ghost c0 = contents_view(c@);
    match first_thinking_exec(c) {
        Some(i) => {
            let mut b = c.remove(i);
            if let Content::Thinking { thinking, .. } = &mut b {
                push_str(thinking, t.as_str());
            }
            c.insert(i, b);
            assert(contents_view(c@) =~= with_reasoning(c0, t@));
            i
        },
        None => {
            c.push(Content::Thinking { thinking: copy_string(t), signature: None });
            assert(contents_view(c@) =~= with_reasoning(c0, t@));
            c.len() - 1
        },
    }
}

pub(crate) fn add_text(c: &mut Vec<Content>, t: &String) -> (idx: usize)
    ensures
        contents_view(final(c)@) == with_text(contents_view(old(c)@), t@),
        final(c).len() <= old(c).len() + 1,
        idx as nat == text_slot(contents_view(old(c)@)),
{
    let ghost c0 = contents_view(c@);
    match first_text_exec(c) {
        Some(i) => {
            let mut b = c.remove(i);
            if let Content::Text { text } = &mut b {
                push_str(text, t.as_str());
            }
            c.insert(i, b);
            assert(contents_view(c@) =~= with_text(c0, t@));
            i
        },
        None => {
            c.push(Content::Text { text: copy_string(t) });
            assert(contents_view(c@) =~= with_text(c0, t@));
            c.len() - 1
        },
    }
}

fn apply_tool_delta_exec(b: &mut Vec<ToolBuffer>, n: usize, tc: &OpenAiToolCallDelta, out: &mut Vec<StreamEvent>)
    requires
        n + tc.index <= usize::MAX,
    ensures
        buffers_view(final(b)@) == apply_tool_delta(buffers_view(old(b)@), n as nat, *tc).0,
        events_view(final(out)@) == events_view(old(out)@) + apply_tool_delta(buffers_view(old(b)@), n as nat, *tc).1,
{
    let ghost b0 = buffers_view(b@);
    let ghost e0 = events_view(out@);
    let i = tc.index as usize;
    while b.len() <= i
        invariant
            b0.len() <= b.len(),
            b.len() <= if (i as int) < b0.len() { b0.len() as int } else { i + 1 },
            buffers_view(b@).take(b0.len() as int) == b0,
            forall|j: int| b0.len() <= j < b.len() ==> #[trigger] buffers_view(b@)[j] == empty_buffer(),
            events_view(out@) == e0,
        decreases i + 1 - b.len(),
    {
        let ghost before = buffers_view(b@);
        b.push(ToolBuffer { id: String::new(), name: String::new(), arguments: String::new() });
        assert(buffers_view(b@) =~= before.push(empty_buffer()));
        assert(buffers_view(b@).take(b0.len() as int) =~= before.take(b0.len() as int));
    }
    let ghost b1 = buffers_upto(b0, i as nat);
    assert(buffers_view(b@) =~= b1);
    let mut x = b.remove(i);
    if let Some(id) = &tc.id {
        x.id = copy_string(id);
    }
    let ghost x1 = x@;
    if let Some(nm) = &tc.name {
        x.name = copy_string(nm);
        out.push(StreamEvent::ToolCallStart { content_index: n + i, id: copy_string(&x.id), name: copy_string(nm) });
    }
    let ghost e1 = events_view(out@);
    if let Some(a) = &tc.arguments {
        push_str(&mut x.arguments, a.as_str());
        out.push(StreamEvent::ToolCallDelta { content_index: n + i, delta: copy_string(a) });
    }
    b.insert(i, x);
    proof {
        let r = apply_tool_delta(b0, n as nat, *tc);
        assert(buffers_view(b@) =~= r.0);
        assert(events_view(out@) =~= e0 + r.1);
    }
}

fn apply_choice_exec(d: &mut OpenAiDecoder, ch: &OpenAiChoice, format: ThinkingFormat, out: &mut Vec<StreamEvent>)
    requires
        old(d).content.len() + 2 <= usize::MAX,
        forall|k: int| 0 <= k < ch.delta.tool_calls@.len()
            ==> old(d).content.len() + 2 + (#[trigger] ch.delta.tool_calls@[k]).index <= usize::MAX,
    ensures
        final(d)@ == apply_choice(old(d)@, *ch, format).0,
        events_view(final(out)@) == events_view(old(out)@) + apply_choice(old(d)@, *ch, format).1,
        final(d).content.len() <= old(d).content.len() + 2,
{
    let ghost d0 = d@;
    let ghost e0 = events_view(out@);
    let reasoning = match format {
        ThinkingFormat::Xai => &ch.delta.reasoning,
        _ => &ch.delta.reasoning_content,
    };
    if let Some(t) = reasoning {
        let idx = add_reasoning(&mut d.content, t);
        out.push(StreamEvent::ThinkingDelta { content_index: idx, delta: copy_string(t) });
    }
    let ghost e1 = events_view(out@);
    if let Some(t) = &ch.delta.content {
        let idx = add_text(&mut d.content, t);
        out.push(StreamEvent::TextDelta { content_index: idx, delta: copy_string(t) });
    }
    let ghost e2 = events_view(out@);
    let ghost c2 = contents_view(d.content@);
    let n = d.content.len();
    let tcs = &ch.delta.tool_calls;
    let mut k: usize = 0;
    while k < tcs.len()
        invariant
            0 <= k <= tcs.len(),
            n == d.content.len(),
            forall|j: int| 0 <= j < tcs@.len() ==> n + (#[trigger] tcs@[j]).index <= usize::MAX,
            (buffers_view(d.buffers@), events_view(out@).skip(e2.len() as int))
                == apply_tool_deltas(d0.buffers, n as nat, tcs@.take(k as int)),
            events_view(out@).take(e2.len() as int) == e2,
            e2.len() <= events_view(out@).len(),
            contents_view(d.content@) == c2,
            d.usage == d0.usage,
            d.stop_reason == d0.stop_reason,
        decreases tcs.len() - k,
    {
        let ghost before = events_view(out@);
        let ghost bb = buffers_view(d.buffers@);
        apply_tool_delta_exec(&mut d.buffers, n, &tcs[k], out);
        proof {
            assert(tcs@.take(k + 1).drop_last() =~= tcs@.take(k as int));
            assert(tcs@.take(k + 1).last() == tcs@[k as int]);
            let step = apply_tool_delta(bb, n as nat, tcs@[k as int]);
            assert(events_view(out@) == before + step.1);
            assert(events_view(out@).skip(e2.len() as int) =~= before.skip(e2.len() as int) + step.1);
            assert(events_view(out@).take(e2.len() as int) =~= before.take(e2.len() as int));
        }
        k = k + 1;
    }
    assert(tcs@.take(tcs.len() as int) =~= tcs@);
    if let Some(r) = &ch.finish_reason {
        d.stop_reason = if str_eq(r.as_str(), "length") {
            StopReason::Length
        } else if str_eq(r.as_str(), "tool_calls") {
            StopReason::ToolUse
        } else {
            StopReason::Stop
        };
    }
    proof {
        assert(events_view(out@) =~= events_view(out@).take(e2.len() as int) + events_view(out@).skip(e2.len() as int));
        assert(events_view(out@) =~= e0 + apply_choice(d0, *ch, format).1);
        let r = apply_choice(d0, *ch, format).0;
        assert(d@.content == r.content);
        assert(d@.buffers == r.buffers);
        assert(d@.usage == r.usage);
        assert(d@.stop_reason == r.stop_reason);
    }
}

/// There is room for the content blocks and the tool-call positions that
/// `chunk` can add to a decoder holding `n` blocks: each choice adds at most
/// two blocks, and each tool call is placed after the blocks at its index.
pub open spec fn chunk_fits(n: nat, chunk: OpenAiChunk) -> bool {
    &&& n + 2 * chunk.choices@.len() + 2 <= usize::MAX
    &&& forall|k: int, j: int| 0 <= k < chunk.choices@.len() && 0 <= j < chunk.choices@[k].delta.tool_calls@.len()
        ==> n + 2 * chunk.choices@.len() + 2 + (#[trigger] chunk.choices@[k].delta.tool_calls@[j]).index <= usize::MAX
}

impl OpenAiDecoder {
    /// A decoder before any chunk: no blocks, zero usage, stop reason `Stop`,
    /// no tool calls.
    pub fn new() -> (r: OpenAiDecoder)
        ensures
            r@ == (OpenAiDecoderV {
                content: seq![],
                usage: Usage { input: 0, output: 0, reasoning: 0, cache_read: 0, cache_write: 0, total_tokens: 0 },
                stop_reason: StopReason::Stop,
                buffers: seq![],
            }),
    {
        let r = OpenAiDecoder { content: Vec::new(), usage: Usage::default(), stop_reason: StopReason::Stop, buffers: Vec::new() };
        assert(contents_view(r.content@) =~= seq![]);
        assert(buffers_view(r.buffers@) =~= seq![]);
        r
    }

    /// Applies one chunk and returns the events to stream, in order.
    /// Whether [`apply`](Self::apply) has room for `chunk` (see [`chunk_fits`]).
    /// Whether the decoder can take one more block or tool call.
    pub fn has_room_for_one(&self) -> (r: bool)
        ensures
            r == (self@.content.len() + self@.buffers.len() < usize::MAX),
    {
        self.buffers.len() < usize::MAX - self.content.len()
    }

    pub fn has_room_for(&self, chunk: &OpenAiChunk) -> (r: bool)
        ensures
            r == chunk_fits(self@.content.len(), *chunk),
    {
        let n = self.content.len() as u128;
        let chs = &chunk.choices;
        let base = n + 2 * (chs.len() as u128) + 2;
        if base > usize::MAX as u128 {
            return false;
        }
        let mut k: usize = 0;
        while k < chs.len()
            invariant
                0 <= k <= chs.len(),
                chs == &chunk.choices,
                base == self@.content.len() + 2 * chunk.choices@.len() + 2,
                base <= usize::MAX,
                forall|a: int, j: int| 0 <= a < k && 0 <= j < chunk.choices@[a].delta.tool_calls@.len()
                    ==> base + (#[trigger] chunk.choices@[a].delta.tool_calls@[j]).index <= usize::MAX,
            decreases chs.len() - k,
        {
            let tcs = &chs[k].delta.tool_calls;
            let mut j: usize = 0;
            while j < tcs.len()
                invariant
                    0 <= j <= tcs.len(),
                    0 <= k < chs.len(),
                    chs == &chunk.choices,
                    tcs == &chunk.choices@[k as int].delta.tool_calls,
                    base == self@.content.len() + 2 * chunk.choices@.len() + 2,
                    base <= usize::MAX,
                    forall|a: int, i: int| 0 <= a < k && 0 <= i < chunk.choices@[a].delta.tool_calls@.len()
                        ==> base + (#[trigger] chunk.choices@[a].delta.tool_calls@[i]).index <= usize::MAX,
                    forall|i: int| 0 <= i < j ==> base + (#[trigger] tcs@[i]).index <= usize::MAX,
                decreases tcs.len() - j,
            {
                if base + (tcs[j].index as u128) > usize::MAX as u128 {
                    return false;
                }
                j = j + 1;
            }
            assert forall|a: int, i: int| 0 <= a < k + 1 && 0 <= i < chunk.choices@[a].delta.tool_calls@.len()
                implies base + (#[trigger] chunk.choices@[a].delta.tool_calls@[i]).index <= usize::MAX by {
                if a == k {
                    assert(chunk.choices@[a].delta.tool_calls@[i] == tcs@[i]);
                }
            }
            k = k + 1;
        }
        true
    }

    pub fn apply(&mut self, chunk: &OpenAiChunk, format: ThinkingFormat) -> (r: Vec<StreamEvent>)
        requires
            chunk_fits(old(self)@.content.len(), *chunk),
        ensures
            (final(self)@, events_view(r@)) == apply_chunk(old(self)@, *chunk, format),
    {
        let ghost d0 = self@;
        if let Some(u) = &chunk.usage {
            self.usage.input = u.prompt_tokens;
            self.usage.output = u.completion_tokens;
            self.usage.total_tokens = u.total_tokens;
            if let Some(c) = u.cached_tokens {
                self.usage.cache_read = c;
            }
            if let Some(t) = u.reasoning_tokens {
                self.usage.reasoning = t;
            }
        }
        let ghost d1 = self@;
        assert(d1 == OpenAiDecoderV { usage: with_usage(d0.usage, chunk.usage), ..d0 });
        let mut out: Vec<StreamEvent> = Vec::new();
        assert(events_view(out@) =~= seq![]);
        let chs = &chunk.choices;
        let mut k: usize = 0;
        while k < chs.len()
            invariant
                0 <= k <= chs.len(),
                (self@, events_view(out@)) == apply_choices(d1, chs@.take(k as int), format),
                self.content.len() <= d0.content.len() + 2 * k,
                chunk_fits(d0.content.len(), *chunk),
                chs == &chunk.choices,
            decreases chs.len() - k,
        {
            assert(chs@.take(k + 1).drop_last() =~= chs@.take(k as int));
            assert(chs@.take(k + 1).last() == chs@[k as int]);
            assert forall|j: int| 0 <= j < chs@[k as int].delta.tool_calls@.len() implies
                self.content.len() + 2 + (#[trigger] chs@[k as int].delta.tool_calls@[j]).index <= usize::MAX by {
                assert(d0.content.len() + 2 * chs@.len() + 2 + chunk.choices@[k as int].delta.tool_calls@[j].index <= usize::MAX);
            }
            apply_choice_exec(self, &chs[k], format, &mut out);
            k = k + 1;
        }
        assert(chs@.take(chs.len() as int) =~= chs@);
        out
    }

    /// The assistant message of the completed stream, and the events that
    /// close its tool calls.
    pub fn finish(self, model: &str, provider: &str, timestamp: u64) -> (r: (Message, Vec<StreamEvent>))
        requires
            self@.content.len() + self@.buffers.len() <= usize::MAX,
        ensures
            r.0@ == openai_message(self@, model@, provider@, timestamp),
            events_view(r.1@) == closing_events(self@.content.len(), self@.buffers.len()),
    {
        let ghost d = self@;
        let OpenAiDecoder { content, usage, stop_reason, buffers } = self;
        let mut content = content;
        let n = content.len();
        let mut ends: Vec<StreamEvent> = Vec::new();
        let mut k: usize = 0;
        while k < buffers.len()
            invariant
                0 <= k <= buffers.len(),
                n == d.content.len(),
                d.buffers == buffers_view(buffers@),
                n + buffers.len() <= usize::MAX,
                contents_view(content@) == d.content + collected_calls(d.buffers.take(k as int)),
                events_view(ends@) == closing_events(n as nat, k as nat),
            decreases buffers.len() - k,
        {
            let x = &buffers[k];
            let args = match reprint_json(x.arguments.as_str()) {
                Some(t) => t,
                None => {
                    let mut e = String::new();
                    push_str(&mut e, "{}");
                    proof {
                        reveal_strlit("{}");
                    }
                    assert(e@ =~= seq!['{', '}']);
                    e
                },
            };
            let ghost cb = contents_view(content@);
            let ghost eb = events_view(ends@);
            content.push(Content::ToolCall { id: copy_string(&x.id), name: copy_string(&x.name), arguments: args });
            ends.push(StreamEvent::ToolCallEnd { content_index: n + k });
            proof {
                assert(contents_view(content@) =~= cb.push(
                    ContentV::ToolCall { id: x@.id, name: x@.name, arguments: call_arguments(x@.arguments) },
                ));
                assert(events_view(ends@) =~= eb.push(StreamEventV::ToolCallEnd { content_index: (n + k) as usize }));
                assert(d.buffers[k as int] == x@);
                assert(d.buffers.take(k + 1) =~= d.buffers.take(k as int).push(x@));
                assert(collected_calls(d.buffers.take(k + 1)) =~= collected_calls(d.buffers.take(k as int)).push(
                    ContentV::ToolCall { id: x@.id, name: x@.name, arguments: call_arguments(x@.arguments) },
                ));
                assert(contents_view(content@) =~= d.content + collected_calls(d.buffers.take(k + 1)));
                assert(events_view(ends@) =~= closing_events(n as nat, (k + 1) as nat));
            }
            k = k + 1;
        }
        assert(d.buffers.take(buffers.len() as int) =~= d.buffers);
        let reason = if buffers.len() > 0 { StopReason::ToolUse } else { stop_reason };
        let msg = Message::Assistant {
            content,
            stop_reason: reason,
            model: to_owned_string(model),
            provider: to_owned_string(provider),
            usage,
            timestamp,
            error_message: None,
        };
        (msg, ends)
    }

    /// Appends text to the text block (opening it if there is none) and
    /// returns the delta event for it.
    pub fn push_text(&mut self, t: String) -> (r: StreamEvent)
        ensures
            final(self)@ == (OpenAiDecoderV { content: with_text(old(self)@.content, t@), ..old(self)@ }),
            r@ == (StreamEventV::TextDelta { content_index: text_slot(old(self)@.content) as usize, delta: t@ }),
    {
        let idx = add_text(&mut self.content, &t);
        StreamEvent::TextDelta { content_index: idx, delta: t }
    }

    /// Starts collecting a new tool call and returns its start event, indexed
    /// after the content blocks and the earlier calls.
    pub fn open_call(&mut self, id: String, name: String) -> (r: StreamEvent)
        requires
            old(self)@.content.len() + old(self)@.buffers.len() < usize::MAX,
        ensures
            final(self)@ == (OpenAiDecoderV {
                buffers: old(self)@.buffers.push(ToolBufferV { id: id@, name: name@, arguments: seq![] }),
                ..old(self)@
            }),
            r@ == (StreamEventV::ToolCallStart {
                content_index: (old(self)@.content.len() + old(self)@.buffers.len()) as usize,
                id: id@,
                name: name@,
            }),
    {
        let ghost b0 = buffers_view(self.buffers@);
        let ev = StreamEvent::ToolCallStart {
            content_index: self.content.len() + self.buffers.len(),
            id: copy_string(&id),
            name: copy_string(&name),
        };
        self.buffers.push(ToolBuffer { id, name, arguments: String::new() });
        assert(buffers_view(self.buffers@) =~= b0.push(ToolBufferV { id: ev@->ToolCallStart_id, name: ev@->ToolCallStart_name, arguments: seq![] }));
        ev
    }

    /// Appends argument text to the most recent tool call and returns the
    /// delta event for it; nothing when no call has started.
    pub fn extend_last_call(&mut self, delta: String) -> (r: Option<StreamEvent>)
        requires
            old(self)@.content.len() + old(self)@.buffers.len() <= usize::MAX,
        ensures
            old(self)@.buffers.len() == 0 ==> final(self)@ == old(self)@ && r is None,
            old(self)@.buffers.len() > 0 ==> {
                let b = old(self)@.buffers;
                let last = b.last();
                &&& final(self)@ == (OpenAiDecoderV {
                    buffers: b.update(b.len() - 1, ToolBufferV { arguments: last.arguments + delta@, ..last }),
                    ..old(self)@
                })
                &&& opt_event_view(r) == Some(StreamEventV::ToolCallDelta {
                    content_index: (old(self)@.content.len() + b.len() - 1) as usize,
                    delta: delta@,
                })
            },
    {
        let n = self.buffers.len();
        if n == 0 {
            return None;
        }
        let ghost b0 = buffers_view(self.buffers@);
        let mut x = self.buffers.pop().unwrap();
        push_str(&mut x.arguments, delta.as_str());
        self.buffers.push(x);
        let ghost last = b0.last();
        assert(buffers_view(self.buffers@) =~= b0.update(b0.len() - 1, ToolBufferV { arguments: last.arguments + delta@, ..last }));
        Some(StreamEvent::ToolCallDelta { content_index: self.content.len() + n - 1, delta })
    }

    /// Replaces the input, output and total token counts.
    pub fn set_usage(&mut self, input: u64, output: u64, total: u64)
        ensures
            final(self)@ == (OpenAiDecoderV {
                usage: Usage { input, output, total_tokens: total, ..old(self)@.usage },
                ..old(self)@
            }),
    {
        self.usage.input = input;
        self.usage.output = output;
        self.usage.total_tokens = total;
    }

    /// The usage reported so far.
    pub fn usage(&self) -> (r: Usage)
        ensures
            r == self@.usage,
    {
        self.usage
    }
}

/// A chunk whose last choice finishes with `finish_reason` "length" leaves the
/// decoder's stop reason `Length` ("tool_calls" gives `ToolUse`, any other reason
/// `Stop`, and a choice without one keeps the reason it had), and a stream that
/// ends there without tool calls is reported as cut off by the output limit.
pub proof fn law_finish_reason_sets_stop_reason(
    d: OpenAiDecoderV,
    chunk: OpenAiChunk,
    format: ThinkingFormat,
    model: Seq<char>,
    provider: Seq<char>,
    timestamp: u64,
)
    requires
        chunk.choices@.len() > 0,
    ensures
        ({
            let last = chunk.choices@.last();
            let d2 = apply_chunk(d, chunk, format).0;
            &&& match last.finish_reason {
                Some(r) => {
                    &&& r@ == "length"@ ==> d2.stop_reason == StopReason::Length
                    &&& r@ == "tool_calls"@ ==> d2.stop_reason == StopReason::ToolUse
                    &&& r@ != "length"@ && r@ != "tool_calls"@ ==> d2.stop_reason == StopReason::Stop
                },
                None => d2.stop_reason == apply_choices(
                    OpenAiDecoderV { usage: with_usage(d.usage, chunk.usage), ..d },
                    chunk.choices@.drop_last(),
                    format,
                ).0.stop_reason,
            }
            &&& d2.stop_reason == StopReason::Length && d2.buffers.len() == 0 ==> openai_message(
                d2,
                model,
                provider,
                timestamp,
            ) matches MessageV::Assistant { stop_reason: StopReason::Length, .. }
        }),
{
    reveal_strlit("length");
    reveal_strlit("tool_calls");
    assert("tool_calls"@.len() == 10 && "length"@.len() == 6);
    assert("tool_calls"@ != "length"@);
    let d0 = OpenAiDecoderV { usage: with_usage(d.usage, chunk.usage), ..d };
    let chs = chunk.choices@;
    let d1 = apply_choices(d0, chs.drop_last(), format).0;
    assert(apply_chunk(d, chunk, format).0 == apply_choice(d1, chs.last(), format).0);
    let d2 = apply_chunk(d, chunk, format).0;
    match chs.last().finish_reason {
        Some(r) => {
            assert(d2.stop_reason == finish_reason_of(r@));
        },
        None => {
            assert(d2.stop_reason == d1.stop_reason);
        },
    }
}

} // verus!
