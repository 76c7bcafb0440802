//! Decoding the Anthropic Messages event stream into an assistant message.
//!
//! The stream announces content blocks (`content_block_start`), fills them with
//! deltas, closes them (`content_block_stop`), reports the stop reason and the
//! usage (`message_delta`) and ends with `message_stop`. The decoder keeps the
//! blocks seen so far and, for each event, says what to stream to the caller
//! and whether the response is complete.
use vstd::prelude::*;
use crate::types::{Content, ContentV, Message, MessageV, StopReason, Usage, contents_view, opt_str_view};
use crate::provider::events::{StreamEvent, StreamEventV};
use crate::json::{json_string, push_json_string, reprint_json, reprinted_json};
use crate::strs::{push_str, to_owned_string, contains_str, has_substring, copy_string};

verus! {

/// The Anthropic Messages provider. Its streaming call is driven outside the library;
/// the decoding of what it receives is done by [`AnthropicDecoder`].
pub struct AnthropicProvider;

impl AnthropicProvider {
    /// The identifier this provider reports.
    pub fn provider_id(&self) -> (r: &'static str)
        ensures
            r@ == "anthropic"@,
    {
        "anthropic"
    }
}

broadcast use vstd::string::group_string_axioms;

/// The kind of block a `content_block_start` announces.
pub enum AnthropicBlockStart {
    Text,
    Thinking,
    ToolUse { id: String, name: String },
}

/// The payload of a `content_block_delta`.
pub enum AnthropicDelta {
    Text(String),
    Thinking(String),
    /// A fragment of a tool call's JSON input.
    InputJson(String),
    Signature(String),
}

/// A streamed event of the Messages API, decoded from its name and data.
pub enum AnthropicEvent {
    MessageStart { input_tokens: u64, cache_read_input_tokens: u64, cache_creation_input_tokens: u64 },
    ContentBlockStart { index: u64, block: AnthropicBlockStart },
    ContentBlockDelta { index: u64, delta: AnthropicDelta },
    ContentBlockStop { index: u64 },
    MessageDelta { stop_reason: Option<String>, output_tokens: u64 },
    MessageStop,
    /// The server reported an error; `data` is its payload.
    Error { data: String },
    /// A ping, an unknown event or one whose data does not parse.
    Ignored,
}

/// What the consumer of a decoder does after an event.
pub enum StreamAction {
    /// Stream the event, if any, and wait for the next one.
    Continue(Option<StreamEvent>),
    /// The response is complete.
    Complete,
    /// The response failed with this error text.
    Fail(String),
}

/// The value of a [`StreamAction`].
pub enum StreamActionV {
    Continue(Option<StreamEventV>),
    Complete,
    Fail(Seq<char>),
}

/// The value of an optional stream event.
pub open spec fn opt_event_view(e: Option<StreamEvent>) -> Option<StreamEventV> {
    match e {
        Some(x) => Some(x@),
        None => None,
    }
}

impl View for StreamAction {
    type V = StreamActionV;

    open spec fn view(&self) -> StreamActionV {
        match self {
            StreamAction::Continue(e) => StreamActionV::Continue(opt_event_view(*e)),
            StreamAction::Complete => StreamActionV::Complete,
            StreamAction::Fail(m) => StreamActionV::Fail(m@),
        }
    }
}

/// A content block being received, with the JSON input of a tool call collected
/// so far while its block is open.
pub struct Slot {
    pub content: Content,
    pub pending_json: Option<String>,
}

/// The value of a slot.
pub struct SlotV {
    pub content: ContentV,
    pub pending_json: Option<Seq<char>>,
}

impl View for Slot {
    type V = SlotV;

    open spec fn view(&self) -> SlotV {
        SlotV { content: self.content@, pending_json: opt_str_view(self.pending_json) }
    }
}

/// The values of a list of slots.
pub open spec fn slots_view(v: Seq<Slot>) -> Seq<SlotV> {
    v.map_values(|s: Slot| s@)
}

/// The state of an Anthropic stream: the blocks received, the usage and the
/// stop reason reported so far.
pub struct AnthropicDecoder {
    slots: Vec<Slot>,
    usage: Usage,
    stop_reason: StopReason,
}

/// The value of an [`AnthropicDecoder`].
pub struct AnthropicDecoderV {
    pub slots: Seq<SlotV>,
    pub usage: Usage,
    pub stop_reason: StopReason,
}

impl View for AnthropicDecoder {
    type V = AnthropicDecoderV;

    closed spec fn view(&self) -> AnthropicDecoderV {
        AnthropicDecoderV { slots: slots_view(self.slots@), usage: self.usage, stop_reason: self.stop_reason }
    }
}

/// The empty JSON object.
pub open spec fn empty_object() -> Seq<char> {
    seq!['{', '}']
}

/// The empty block a `content_block_start` of kind `b` opens.
pub open spec fn opened_slot(b: AnthropicBlockStart) -> SlotV {
    match b {
        AnthropicBlockStart::Text => SlotV { content: ContentV::Text { text: seq![] }, pending_json: None },
        AnthropicBlockStart::Thinking => SlotV {
            content: ContentV::Thinking { thinking: seq![], signature: None },
            pending_json: None,
        },
        AnthropicBlockStart::ToolUse { id, name } => SlotV {
            content: ContentV::ToolCall { id: id@, name: name@, arguments: empty_object() },
            pending_json: None,
        },
    }
}

/// `slots` extended with copies of `fill` until index `idx` exists.
pub open spec fn padded(slots: Seq<SlotV>, idx: nat, fill: SlotV) -> Seq<SlotV> {
    if idx < slots.len() {
        slots
    } else {
        slots + Seq::new((idx + 1 - slots.len()) as nat, |_i: int| fill)
    }
}

/// The blocks after a delta for block `idx`: text and thinking grow, a tool
/// call collects its input, a signature is set; a delta for a block of
/// another kind, or for no block, changes nothing.
pub open spec fn with_delta(slots: Seq<SlotV>, idx: int, d: AnthropicDelta) -> Seq<SlotV> {
    if 0 <= idx < slots.len() {
        let s = slots[idx];
        match d {
            AnthropicDelta::Text(t) => match s.content {
                ContentV::Text { text } => slots.update(idx, SlotV { content: ContentV::Text { text: text + t@ }, ..s }),
                _ => slots,
            },
            AnthropicDelta::Thinking(t) => match s.content {
                ContentV::Thinking { thinking, signature } => slots.update(
                    idx,
                    SlotV { content: ContentV::Thinking { thinking: thinking + t@, signature }, ..s },
                ),
                _ => slots,
            },
            AnthropicDelta::InputJson(p) => match s.content {
                ContentV::ToolCall { .. } => slots.update(
                    idx,
                    SlotV {
                        pending_json: Some(
                            match s.pending_json {
                                Some(b) => b + p@,
                                None => p@,
                            },
                        ),
                        ..s
                    },
                ),
                _ => slots,
            },
            AnthropicDelta::Signature(g) => match s.content {
                ContentV::Thinking { thinking, .. } => slots.update(
                    idx,
                    SlotV { content: ContentV::Thinking { thinking, signature: Some(g@) }, ..s },
                ),
                _ => slots,
            },
        }
    } else {
        slots
    }
}

/// The event streamed for a delta to block `idx`; signatures are not streamed.
pub open spec fn delta_event(idx: usize, d: AnthropicDelta) -> Option<StreamEventV> {
    match d {
        AnthropicDelta::Text(t) => Some(StreamEventV::TextDelta { content_index: idx, delta: t@ }),
        AnthropicDelta::Thinking(t) => Some(StreamEventV::ThinkingDelta { content_index: idx, delta: t@ }),
        AnthropicDelta::InputJson(p) => Some(StreamEventV::ToolCallDelta { content_index: idx, delta: p@ }),
        AnthropicDelta::Signature(_) => None,
    }
}

/// The arguments of a tool call whose collected input is `p`: its reprint when
/// it parses as JSON, the empty object otherwise.
pub open spec fn parsed_arguments(p: Seq<char>) -> Seq<char> {
    match reprinted_json(p) {
        Some(t) => t,
        None => empty_object(),
    }
}

/// The blocks after block `idx` closes: a tool call with collected input gets
/// that input, parsed, as its arguments.
pub open spec fn with_stop(slots: Seq<SlotV>, idx: int) -> Seq<SlotV> {
    if 0 <= idx < slots.len() {
        match (slots[idx].content, slots[idx].pending_json) {
            (ContentV::ToolCall { id, name, .. }, Some(p)) => slots.update(
                idx,
                SlotV { content: ContentV::ToolCall { id, name, arguments: parsed_arguments(p) }, pending_json: None },
            ),
            _ => slots,
        }
    } else {
        slots
    }
}

/// The stop reason named by a `message_delta`.
pub open spec fn anthropic_stop_reason(r: Option<String>) -> StopReason {
    match r {
        Some(s) => if s@ == "tool_use"@ {
            StopReason::ToolUse
        } else if s@ == "max_tokens"@ {
            StopReason::Length
        } else {
            StopReason::Stop
        },
        None => StopReason::Stop,
    }
}

/// The decoder's state after an event.
pub open spec fn anthropic_next(d: AnthropicDecoderV, ev: AnthropicEvent) -> AnthropicDecoderV {
    match ev {
        AnthropicEvent::MessageStart { input_tokens, cache_read_input_tokens, cache_creation_input_tokens } =>
            AnthropicDecoderV {
                usage: Usage {
                    input: input_tokens,
                    cache_read: cache_read_input_tokens,
                    cache_write: cache_creation_input_tokens,
                    ..d.usage
                },
                ..d
            },
        AnthropicEvent::ContentBlockStart { index, block } => AnthropicDecoderV {
            slots: padded(d.slots, (index as usize) as nat, opened_slot(block)),
            ..d
        },
        AnthropicEvent::ContentBlockDelta { index, delta } => AnthropicDecoderV {
            slots: with_delta(d.slots, (index as usize) as int, delta),
            ..d
        },
        AnthropicEvent::ContentBlockStop { index } => AnthropicDecoderV {
            slots: with_stop(d.slots, (index as usize) as int),
            ..d
        },
        AnthropicEvent::MessageDelta { stop_reason, output_tokens } => AnthropicDecoderV {
            stop_reason: anthropic_stop_reason(stop_reason),
            usage: Usage { output: output_tokens, ..d.usage },
            ..d
        },
        _ => d,
    }
}

/// What the consumer does after an event.
pub open spec fn anthropic_action(d: AnthropicDecoderV, ev: AnthropicEvent) -> StreamActionV {
    match ev {
        AnthropicEvent::ContentBlockStart { index, block } => match block {
            AnthropicBlockStart::ToolUse { id, name } => StreamActionV::Continue(
                Some(StreamEventV::ToolCallStart { content_index: index as usize, id: id@, name: name@ }),
            ),
            _ => StreamActionV::Continue(None),
        },
        AnthropicEvent::ContentBlockDelta { index, delta } => StreamActionV::Continue(delta_event(index as usize, delta)),
        AnthropicEvent::ContentBlockStop { index } => StreamActionV::Continue(
            Some(StreamEventV::ToolCallEnd { content_index: index as usize }),
        ),
        AnthropicEvent::MessageStop => StreamActionV::Complete,
        AnthropicEvent::Error { data } => StreamActionV::Fail(data@),
        _ => StreamActionV::Continue(None),
    }
}

/// The arguments of a tool call still collecting input when the stream ended:
/// an object holding the collected text under `__partial_json`.
pub open spec fn unfinished_arguments(p: Seq<char>) -> Seq<char> {
    "{\"__partial_json\":"@ + json_string(p) + seq!['}']
}

/// The content block a slot ends as.
pub open spec fn final_block(s: SlotV) -> ContentV {
    match (s.content, s.pending_json) {
        (ContentV::ToolCall { id, name, .. }, Some(p)) => ContentV::ToolCall {
            id,
            name,
            arguments: unfinished_arguments(p),
        },
        _ => s.content,
    }
}

/// The content of the completed message.
pub open spec fn final_blocks(slots: Seq<SlotV>) -> Seq<ContentV> {
    slots.map_values(|s: SlotV| final_block(s))
}

/// Some block is a tool call.
pub open spec fn has_tool_call(c: Seq<ContentV>) -> bool {
    exists|i: int| 0 <= i < c.len() && (#[trigger] c[i]) is ToolCall
}

/// The assistant message of a completed stream: a tool call in the content
/// makes the stop reason `ToolUse`.
pub open spec fn anthropic_message(d: AnthropicDecoderV, model: Seq<char>, timestamp: u64) -> MessageV {
    let content = final_blocks(d.slots);
    MessageV::Assistant {
        content,
        stop_reason: if has_tool_call(content) { StopReason::ToolUse } else { d.stop_reason },
        model,
        provider: "anthropic"@,
        usage: d.usage,
        timestamp,
        error_message: None,
    }
}

/// The assistant message of a failed stream: one empty text block, the usage
/// so far and the error.
pub open spec fn failed_message(
    usage: Usage,
    model: Seq<char>,
    provider: Seq<char>,
    error: Seq<char>,
    timestamp: u64,
) -> MessageV {
    MessageV::Assistant {
        content: seq![ContentV::Text { text: seq![] }],
        stop_reason: StopReason::Error,
        model,
        provider,
        usage,
        timestamp,
        error_message: Some(error),
    }
}

fn clone_slot(s: &Slot) -> (r: Slot)
    ensures
        r@ == s@,
{
    Slot { content: s.content.clone(), pending_json: crate::types::clone_opt_string(&s.pending_json) }
}

fn opened(block: AnthropicBlockStart) -> (r: (Slot, Option<StreamEvent>))
    ensures
        r.0@ == opened_slot(block),
        opt_event_view(r.1) == (match block {
            AnthropicBlockStart::ToolUse { id, name } => Some(StreamEventV::ToolCallStart { content_index: 0, id: id@, name: name@ }),
            _ => None::<StreamEventV>,
        }),
{
    match block {
        AnthropicBlockStart::Text => (Slot { content: Content::Text { text: String::new() }, pending_json: None }, None),
        AnthropicBlockStart::Thinking => (
            Slot { content: Content::Thinking { thinking: String::new(), signature: None }, pending_json: None },
            None,
        ),
        AnthropicBlockStart::ToolUse { id, name } => {
            let mut args = String::new();
            push_str(&mut args, "{}");
            proof {
                reveal_strlit("{}");
            }
            assert(args@ =~= empty_object());
            let ev = StreamEvent::ToolCallStart { content_index: 0, id: id.clone(), name: name.clone() };
            (Slot { content: Content::ToolCall { id, name, arguments: args }, pending_json: None }, Some(ev))
        },
    }
}

impl AnthropicDecoder {
    /// A decoder before any event: no blocks, zero usage, stop reason `Stop`.
    pub fn new() -> (r: AnthropicDecoder)
        ensures
            r@ == (AnthropicDecoderV {
                slots: seq![],
                usage: Usage { input: 0, output: 0, reasoning: 0, cache_read: 0, cache_write: 0, total_tokens: 0 },
                stop_reason: StopReason::Stop,
            }),
    {
        let r = AnthropicDecoder { slots: Vec::new(), usage: Usage::default(), stop_reason: StopReason::Stop };
        assert(slots_view(r.slots@) =~= seq![]);
        r
    }

    /// Applies one event: updates the blocks, usage and stop reason, and says
    /// what to stream and whether the response is complete or failed.
    pub fn apply(&mut self, ev: AnthropicEvent) -> (r: StreamAction)
        ensures
            final(self)@ == anthropic_next(old(self)@, ev),
            r@ == anthropic_action(old(self)@, ev),
    {
        let ghost ev0 = ev;
        match ev {
            AnthropicEvent::MessageStart { input_tokens, cache_read_input_tokens, cache_creation_input_tokens } => {
                self.usage.input = input_tokens;
                self.usage.cache_read = cache_read_input_tokens;
                self.usage.cache_write = cache_creation_input_tokens;
                assert(self@ == anthropic_next(old(self)@, ev0));
                StreamAction::Continue(None)
            },
            AnthropicEvent::ContentBlockStart { index, block } => {
                let idx = index as usize;
                let (fill, start) = opened(block);
                let ghost fv = fill@;
                let ghost s0 = slots_view(self.slots@);
                while self.slots.len() <= idx
                    invariant
                        s0.len() <= self.slots.len(),
                        self.slots.len() <= if idx < s0.len() { s0.len() as int } else { idx + 1 },
                        slots_view(self.slots@).take(s0.len() as int) == s0,
                        forall|j: int| s0.len() <= j < self.slots.len() ==> #[trigger] slots_view(self.slots@)[j] == fv,
                        fill@ == fv,
                        self.usage == old(self).usage,
                        self.stop_reason == old(self).stop_reason,
                    decreases idx + 1 - self.slots.len(),
                {
                    let ghost before = slots_view(self.slots@);
                    self.slots.push(clone_slot(&fill));
                    assert(slots_view(self.slots@) =~= before.push(fv));
                    assert(slots_view(self.slots@).take(s0.len() as int) =~= before.take(s0.len() as int));
                }
                assert(slots_view(self.slots@) =~= padded(s0, idx as nat, fv));
                assert(self@ == anthropic_next(old(self)@, ev0));
                match start {
                    Some(StreamEvent::ToolCallStart { id, name, .. }) => StreamAction::Continue(
                        Some(StreamEvent::ToolCallStart { content_index: idx, id, name }),
                    ),
                    _ => StreamAction::Continue(None),
                }
            },
            AnthropicEvent::ContentBlockDelta { index, delta } => {
                let idx = index as usize;
                let ghost s0 = slots_view(self.slots@);
                if idx < self.slots.len() {
                    let mut slot = self.slots.remove(idx);
                    let ghost sv = slot@;
                    assert(sv == s0[idx as int]);
                    match &delta {
                        AnthropicDelta::Text(t) => {
                            if let Content::Text { text } = &mut slot.content {
                                push_str(text, t.as_str());
                            }
                        },
                        AnthropicDelta::Thinking(t) => {
                            if let Content::Thinking { thinking, .. } = &mut slot.content {
                                push_str(thinking, t.as_str());
                            }
                        },
                        AnthropicDelta::InputJson(p) => {
                            if let Content::ToolCall { .. } = &slot.content {
                                let buf = match slot.pending_json {
                                    Some(b) => {
                                        let mut b = b;
                                        push_str(&mut b, p.as_str());
                                        b
                                    },
                                    None => to_owned_string(p.as_str()),
                                };
                                slot.pending_json = Some(buf);
                            }
                        },
                        AnthropicDelta::Signature(g) => {
                            if let Content::Thinking { signature, .. } = &mut slot.content {
                                *signature = Some(to_owned_string(g.as_str()));
                            }
                        },
                    }
                    self.slots.insert(idx, slot);
                    proof {
                        let s1 = with_delta(s0, idx as int, delta);
                        assert(slots_view(self.slots@) =~= s1);
                    }
                }
                let ev_out = match delta {
                    AnthropicDelta::Text(t) => Some(StreamEvent::TextDelta { content_index: idx, delta: t }),
                    AnthropicDelta::Thinking(t) => Some(StreamEvent::ThinkingDelta { content_index: idx, delta: t }),
                    AnthropicDelta::InputJson(p) => Some(StreamEvent::ToolCallDelta { content_index: idx, delta: p }),
                    AnthropicDelta::Signature(_) => None,
                };
                assert(self@ == anthropic_next(old(self)@, ev0));
                StreamAction::Continue(ev_out)
            },
            AnthropicEvent::ContentBlockStop { index } => {
                let idx = index as usize;
                let ghost s0 = slots_view(self.slots@);
                if idx < self.slots.len() {
                    let is_call = match &self.slots[idx].content {
                        Content::ToolCall { .. } => true,
                        _ => false,
                    };
                    if is_call && self.slots[idx].pending_json.is_some() {
                        let slot = self.slots.remove(idx);
                        let ghost sv = slot@;
                        assert(sv == s0[idx as int]);
                        let Slot { content, pending_json } = slot;
                        let p = match pending_json {
                            Some(p) => p,
                            None => String::new(),
                        };
                        let args = match reprint_json(p.as_str()) {
                            Some(t) => t,
                            None => {
                                let mut e = String::new();
                                push_str(&mut e, "{}");
                                proof {
                                    reveal_strlit("{}");
                                }
                                assert(e@ =~= empty_object());
                                e
                            },
                        };
                        let c = match content {
                            Content::ToolCall { id, name, .. } => Content::ToolCall { id, name, arguments: args },
                            other => other,
                        };
                        self.slots.insert(idx, Slot { content: c, pending_json: None });
                        assert(slots_view(self.slots@) =~= with_stop(s0, idx as int));
                    }
                }
                assert(self@ == anthropic_next(old(self)@, ev0));
                StreamAction::Continue(Some(StreamEvent::ToolCallEnd { content_index: idx }))
            },
            AnthropicEvent::MessageDelta { stop_reason, output_tokens } => {
                let reason = match &stop_reason {
                    Some(s) => if crate::strs::str_eq(s.as_str(), "tool_use") {
                        StopReason::ToolUse
                    } else if crate::strs::str_eq(s.as_str(), "max_tokens") {
                        StopReason::Length
                    } else {
                        StopReason::Stop
                    },
                    None => StopReason::Stop,
                };
                self.stop_reason = reason;
                self.usage.output = output_tokens;
                assert(self@ == anthropic_next(old(self)@, ev0));
                StreamAction::Continue(None)
            },
            AnthropicEvent::MessageStop => StreamAction::Complete,
            AnthropicEvent::Error { data } => StreamAction::Fail(data),
            AnthropicEvent::Ignored => StreamAction::Continue(None),
        }
    }

    /// The assistant message of the completed stream.
    pub fn finish(self, model: &str, timestamp: u64) -> (r: Message)
        ensures
            r@ == anthropic_message(self@, model@, timestamp),
    {
        let ghost d = self@;
        let AnthropicDecoder { slots, usage, stop_reason } = self;
        let mut content: Vec<Content> = Vec::new();
        let mut calls = false;
        let mut slots = slots;
        let ghost all = slots_view(slots@);
        let ghost n = all.len();
        while slots.len() > 0
            invariant
                n == all.len(),
                slots_view(slots@) == all.skip(n - slots.len()),
                contents_view(content@) == final_blocks(all.take(n - slots.len())),
                calls == has_tool_call(contents_view(content@)),
                slots.len() <= n,
            decreases slots.len(),
        {
            let ghost k = n - slots.len();
            let ghost before = contents_view(content@);
            let ghost olds = slots@;
            assert(slots_view(olds)[0] == olds[0]@);
            assert(all.skip(k)[0] == all[k]);
            let s = slots.remove(0);
            assert(s@ == all[k]);
            assert(slots@ == olds.remove(0));
            assert(slots@ =~= olds.drop_first());
            assert(slots_view(slots@) =~= slots_view(olds).drop_first());
            assert(slots_view(slots@) =~= all.skip(k + 1));
            let Slot { content: c, pending_json } = s;
            let block = match (c, pending_json) {
                (Content::ToolCall { id, name, .. }, Some(p)) => {
                    let mut a = String::new();
                    push_str(&mut a, "{\"__partial_json\":");
                    push_json_string(&mut a, p.as_str());
                    crate::strs::push_char(&mut a, '}');
                    assert(a@ =~= unfinished_arguments(p@));
                    Content::ToolCall { id, name, arguments: a }
                },
                (c, _) => c,
            };
            let is_call = match &block {
                Content::ToolCall { .. } => true,
                _ => false,
            };
            content.push(block);
            proof {
                assert(all.take(k + 1) =~= all.take(k).push(all[k]));
                assert(final_blocks(all.take(k + 1)) =~= final_blocks(all.take(k)).push(final_block(all[k])));
                assert(contents_view(content@) =~= before.push(final_block(all[k])));
                if is_call {
                    assert(contents_view(content@)[k] is ToolCall);
                }
                if calls {
                    let j = choose|j: int| 0 <= j < before.len() && (#[trigger] before[j]) is ToolCall;
                    assert(contents_view(content@)[j] is ToolCall);
                }
                if !calls && !is_call {
                    assert forall|j: int| 0 <= j < contents_view(content@).len() implies !(#[trigger] contents_view(content@)[j] is ToolCall) by {
                        if j < before.len() {
                            assert(contents_view(content@)[j] == before[j]);
                        }
                    }
                }
            }
            calls = calls || is_call;
        }
        assert(all.take(n as int) =~= all);
        let reason = if calls { StopReason::ToolUse } else { stop_reason };
        Message::Assistant {
            content,
            stop_reason: reason,
            model: to_owned_string(model),
            provider: to_owned_string("anthropic"),
            usage,
            timestamp,
            error_message: None,
        }
    }

    /// The assistant message of a stream that failed with `error`.
    pub fn fail(&self, model: &str, error: String, timestamp: u64) -> (r: Message)
        ensures
            r@ == failed_message(self@.usage, model@, "anthropic"@, error@, timestamp),
    {
        failure_message(self.usage, model, "anthropic", error, timestamp)
    }
}

/// The assistant message of a failed stream.
pub fn failure_message(usage: Usage, model: &str, provider: &str, error: String, timestamp: u64) -> (r: Message)
    ensures
        r@ == failed_message(usage, model@, provider@, error@, timestamp),
{
    let mut content: Vec<Content> = Vec::new();
    content.push(Content::Text { text: String::new() });
    assert(contents_view(content@) =~= seq![ContentV::Text { text: seq![] }]);
    Message::Assistant {
        content,
        stop_reason: StopReason::Error,
        model: to_owned_string(model),
        provider: to_owned_string(provider),
        usage,
        timestamp,
        error_message: Some(error),
    }
}

/// An OAuth token of the vendor's coding CLI, rather than an API key.
pub open spec fn is_oauth_token(key: Seq<char>) -> bool {
    has_substring(key, "sk-ant-oat"@)
}

/// Whether `api_key` is an OAuth token of the vendor's coding CLI (it contains `sk-ant-oat`).
pub fn is_oauth_key(api_key: &str) -> (r: bool)
    ensures
        r == is_oauth_token(api_key@),
{
    let v = crate::strs::chars_of(api_key);
    contains_str(&v, "sk-ant-oat")
}

/// The client identity that a request made with an OAuth token presents: the
/// system text that opens the system prompt, the `anthropic-beta` flags and
/// the `user-agent`. They are supplied by the caller.
pub struct OAuthIdentity {
    pub system_text: String,
    pub beta: String,
    pub user_agent: String,
}

/// The headers of a Messages API request.
pub open spec fn anthropic_headers(api_key: Seq<char>, id: OAuthIdentity) -> Seq<(Seq<char>, Seq<char>)> {
    seq![("anthropic-version"@, "2023-06-01"@), ("content-type"@, "application/json"@)] + if is_oauth_token(api_key) {
        seq![
            ("authorization"@, "Bearer "@ + api_key),
            ("anthropic-beta"@, id.beta@),
            ("anthropic-dangerous-direct-browser-access"@, "true"@),
            ("user-agent"@, id.user_agent@),
            ("x-app"@, "cli"@),
        ]
    } else {
        seq![("x-api-key"@, api_key)]
    }
}

fn header(name: &str, value: String) -> (r: (String, String))
    ensures
        r.0@ == name@,
        r.1@ == value@,
{
    (to_owned_string(name), value)
}

/// The headers of a Messages API request: the API version and content type,
/// then for an OAuth token a bearer token with the identity headers of `id`,
/// or for an API key the `x-api-key` header.
pub fn request_headers(api_key: &str, id: &OAuthIdentity) -> (r: Vec<(String, String)>)
    ensures
        r@.map_values(|h: (String, String)| (h.0@, h.1@)) == anthropic_headers(api_key@, *id),
{
    let mut h: Vec<(String, String)> = Vec::new();
    h.push(header("anthropic-version", to_owned_string("2023-06-01")));
    h.push(header("content-type", to_owned_string("application/json")));
    if is_oauth_key(api_key) {
        let mut bearer = to_owned_string("Bearer ");
        push_str(&mut bearer, api_key);
        h.push(header("authorization", bearer));
        h.push(header("anthropic-beta", copy_string(&id.beta)));
        h.push(header("anthropic-dangerous-direct-browser-access", to_owned_string("true")));
        h.push(header("user-agent", copy_string(&id.user_agent)));
        h.push(header("x-app", to_owned_string("cli")));
    } else {
        h.push(header("x-api-key", to_owned_string(api_key)));
    }
    assert(h@.map_values(|h: (String, String)| (h.0@, h.1@)) =~= anthropic_headers(api_key@, *id));
    h
}

} // verus!
