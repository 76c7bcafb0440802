//! Decoding the Bedrock ConverseStream response: newline-delimited JSON events,
//! each one a text or tool-input delta, a block start or stop, the stop reason
//! or the usage.
use vstd::prelude::*;
use crate::types::{Content, ContentV, Message, MessageV, StopReason, Usage, contents_view};
use crate::provider::events::{StreamEvent, StreamEventV, events_view};
use crate::provider::error::ProviderError;
use crate::provider::openai_compat::{text_slot, with_text};
use crate::context::skills::scalars::{trim, trim_bounds};
use crate::context::skills::frontmatter::sub_chars;
use crate::strs::{chars_of, copy_string, push_str, str_eq, string_of, to_owned_string, has_substring};

verus! {

/// The Bedrock ConverseStream provider. Its streaming call is driven outside the library;
/// the decoding of what it receives is done by [`BedrockDecoder`].
pub struct BedrockProvider;

impl BedrockProvider {
    /// The identifier this provider reports.
    pub fn provider_id(&self) -> (r: &'static str)
        ensures
            r@ == "bedrock"@,
    {
        "bedrock"
    }
}

broadcast use vstd::string::group_string_axioms;

/// A ConverseStream event, decoded from one line.
pub enum BedrockEvent {
    /// `contentBlockDelta`: text, and/or a fragment of a tool call's input.
    ContentBlockDelta { text: Option<String>, tool_input: Option<String> },
    /// `contentBlockStart`: a tool call's id and name, if it starts one.
    ContentBlockStart { tool_use: Option<(String, String)> },
    /// `contentBlockStop`.
    ContentBlockStop,
    /// `messageStop`, with the stop reason if given.
    MessageStop { stop_reason: Option<String> },
    /// `metadata`, with the input and output token counts if given.
    Metadata { usage: Option<(u64, u64)> },
    /// Anything else.
    Unknown,
}

/// The state of a ConverseStream response.
pub struct BedrockDecoder {
    content: Vec<Content>,
    usage: Usage,
    stop_reason: StopReason,
}

/// The value of a [`BedrockDecoder`].
pub struct BedrockDecoderV {
    pub content: Seq<ContentV>,
    pub usage: Usage,
    pub stop_reason: StopReason,
}

impl View for BedrockDecoder {
    type V = BedrockDecoderV;

    closed spec fn view(&self) -> BedrockDecoderV {
        BedrockDecoderV { content: contents_view(self.content@), usage: self.usage, stop_reason: self.stop_reason }
    }
}

/// Some block of `c` is a tool call.
pub open spec fn any_tool_call(c: Seq<ContentV>) -> bool {
    exists|i: int| 0 <= i < c.len() && (#[trigger] c[i]) is ToolCall
}

/// The stop reason a `messageStop` names.
pub open spec fn bedrock_stop_reason(r: Option<String>) -> StopReason {
    match r {
        Some(s) => if s@ == "max_tokens"@ {
            StopReason::Length
        } else if s@ == "tool_use"@ {
            StopReason::ToolUse
        } else {
            StopReason::Stop
        },
        None => StopReason::Stop,
    }
}

/// The decoder's state and the streamed events after an event. Tool input is
/// streamed but not collected: a tool call keeps empty arguments.
pub open spec fn bedrock_step(d: BedrockDecoderV, ev: BedrockEvent) -> (BedrockDecoderV, Seq<StreamEventV>) {
    match ev {
        BedrockEvent::ContentBlockDelta { text, tool_input } => {
            let (c1, e1): (Seq<ContentV>, Seq<StreamEventV>) = match text {
                Some(t) => (
                    with_text(d.content, t@),
                    seq![StreamEventV::TextDelta { content_index: text_slot(d.content) as usize, delta: t@ }],
                ),
                None => (d.content, seq![]),
            };
            let e2: Seq<StreamEventV> = match tool_input {
                Some(x) => seq![StreamEventV::ToolCallDelta { content_index: c1.len() as usize, delta: x@ }],
                None => seq![],
            };
            (BedrockDecoderV { content: c1, ..d }, e1 + e2)
        },
        BedrockEvent::ContentBlockStart { tool_use: Some((id, name)) } => (
            BedrockDecoderV {
                content: d.content.push(ContentV::ToolCall { id: id@, name: name@, arguments: seq!['{', '}'] }),
                ..d
            },
            seq![StreamEventV::ToolCallStart { content_index: d.content.len() as usize, id: id@, name: name@ }],
        ),
        BedrockEvent::ContentBlockStop => (
            d,
            if any_tool_call(d.content) {
                seq![StreamEventV::ToolCallEnd { content_index: (d.content.len() - 1) as usize }]
            } else {
                seq![]
            },
        ),
        BedrockEvent::MessageStop { stop_reason } => (
            BedrockDecoderV { stop_reason: bedrock_stop_reason(stop_reason), ..d },
            seq![],
        ),
        BedrockEvent::Metadata { usage: Some((i, o)) } => (
            BedrockDecoderV { usage: Usage { input: i, output: o, total_tokens: (i + o) as u64, ..d.usage }, ..d },
            seq![],
        ),
        _ => (d, seq![]),
    }
}

/// The assistant message of a completed response.
pub open spec fn bedrock_message(d: BedrockDecoderV, model: Seq<char>, provider: Seq<char>, timestamp: u64) -> MessageV {
    MessageV::Assistant {
        content: d.content,
        stop_reason: d.stop_reason,
        model,
        provider,
        usage: d.usage,
        timestamp,
        error_message: None,
    }
}

impl BedrockDecoder {
    /// A decoder before any event.
    pub fn new() -> (r: BedrockDecoder)
        ensures
            r@ == (BedrockDecoderV {
                content: seq![],
                usage: Usage { input: 0, output: 0, reasoning: 0, cache_read: 0, cache_write: 0, total_tokens: 0 },
                stop_reason: StopReason::Stop,
            }),
    {
        let r = BedrockDecoder { content: Vec::new(), usage: Usage::default(), stop_reason: StopReason::Stop };
        assert(contents_view(r.content@) =~= seq![]);
        r
    }

    /// Applies one event and returns the events to stream, in order.
    /// Whether the decoder can take one more content block.
    pub fn has_room(&self) -> (r: bool)
        ensures
            r == (self@.content.len() < usize::MAX),
    {
        self.content.len() < usize::MAX
    }

    pub fn apply(&mut self, ev: BedrockEvent) -> (r: Vec<StreamEvent>)
        requires
            old(self)@.content.len() < usize::MAX,
            ev matches BedrockEvent::Metadata { usage: Some((i, o)) } ==> i + o <= u64::MAX,
        ensures
            (final(self)@, events_view(r@)) == bedrock_step(old(self)@, ev),
    {
        let ghost d0 = self@;
        let mut out: Vec<StreamEvent> = Vec::new();
        match ev {
            BedrockEvent::ContentBlockDelta { text, tool_input } => {
                if let Some(t) = text {
                    let idx = add_text_block(&mut self.content, &t);
                    out.push(StreamEvent::TextDelta { content_index: idx, delta: t });
                }
                if let Some(x) = tool_input {
                    out.push(StreamEvent::ToolCallDelta { content_index: self.content.len(), delta: x });
                }
                assert(events_view(out@) =~= bedrock_step(d0, ev).1);
            },
            BedrockEvent::ContentBlockStart { tool_use } => {
                if let Some((id, name)) = tool_use {
                    let idx = self.content.len();
                    let mut args = String::new();
                    push_str(&mut args, "{}");
                    proof {
                        reveal_strlit("{}");
                    }
                    assert(args@ =~= seq!['{', '}']);
                    out.push(StreamEvent::ToolCallStart { content_index: idx, id: copy_string(&id), name: copy_string(&name) });
                    let ghost c0 = contents_view(self.content@);
                    self.content.push(Content::ToolCall { id, name, arguments: args });
                    assert(contents_view(self.content@) =~= c0.push(
                        ContentV::ToolCall { id: out@[0]@->ToolCallStart_id, name: out@[0]@->ToolCallStart_name, arguments: seq!['{', '}'] },
                    ));
                }
                assert(events_view(out@) =~= bedrock_step(d0, ev).1);
            },
            BedrockEvent::ContentBlockStop => {
                let mut any = false;
                let mut i: usize = 0;
                while i < self.content.len()
                    invariant
                        0 <= i <= self.content.len(),
                        self@ == d0,
                        any == exists|j: int| 0 <= j < i && (#[trigger] d0.content[j]) is ToolCall,
                        out@.len() == 0,
                    decreases self.content.len() - i,
                {
                    assert(d0.content[i as int] == self.content@[i as int]@);
                    if let Content::ToolCall { .. } = &self.content[i] {
                        any = true;
                    }
                    i = i + 1;
                }
                if any {
                    out.push(StreamEvent::ToolCallEnd { content_index: self.content.len() - 1 });
                }
                assert(events_view(out@) =~= bedrock_step(d0, ev).1);
            },
            BedrockEvent::MessageStop { stop_reason } => {
                self.stop_reason = match &stop_reason {
                    Some(s) => if str_eq(s.as_str(), "max_tokens") {
                        StopReason::Length
                    } else if str_eq(s.as_str(), "tool_use") {
                        StopReason::ToolUse
                    } else {
                        StopReason::Stop
                    },
                    None => StopReason::Stop,
                };
                assert(events_view(out@) =~= seq![]);
            },
            BedrockEvent::Metadata { usage } => {
                if let Some((i, o)) = usage {
                    self.usage.input = i;
                    self.usage.output = o;
                    self.usage.total_tokens = i + o;
                }
                assert(events_view(out@) =~= seq![]);
            },
            BedrockEvent::Unknown => {
                assert(events_view(out@) =~= seq![]);
            },
        }
        out
    }

    /// The assistant message of the completed response.
    pub fn finish(self, model: &str, provider: &str, timestamp: u64) -> (r: Message)
        ensures
            r@ == bedrock_message(self@, model@, provider@, timestamp),
    {
        Message::Assistant {
            content: self.content,
            stop_reason: self.stop_reason,
            model: to_owned_string(model),
            provider: to_owned_string(provider),
            usage: self.usage,
            timestamp,
            error_message: None,
        }
    }
}

fn add_text_block(c: &mut Vec<Content>, t: &String) -> (idx: usize)
    ensures
        contents_view(final(c)@) == with_text(contents_view(old(c)@), t@),
        idx as nat == text_slot(contents_view(old(c)@)),
{
    crate::provider::openai_compat::add_text(c, t)
}

/// The index of the first line break of `buf` at or after `i`.
pub open spec fn newline_from(buf: Seq<char>, i: nat) -> Option<nat>
    decreases buf.len() - i,
{
    if i >= buf.len() {
        None
    } else if buf[i as int] == '\n' {
        Some(i)
    } else {
        newline_from(buf, i + 1)
    }
}

pub proof fn lemma_newline_from_bound(buf: Seq<char>, i: nat)
    ensures
        newline_from(buf, i) matches Some(p) ==> i <= p < buf.len() && buf[p as int] == '\n',
    decreases buf.len() - i,
{
    if i < buf.len() && buf[i as int] != '\n' {
        lemma_newline_from_bound(buf, i + 1);
    }
}

/// The complete lines of `buf`, trimmed, empty ones dropped, and what follows
/// the last line break.
pub open spec fn frame_lines(buf: Seq<char>) -> (Seq<Seq<char>>, Seq<char>)
    decreases buf.len(),
{
    match newline_from(buf, 0) {
        None => (seq![], buf),
        Some(p) => {
            proof {
                lemma_newline_from_bound(buf, 0);
            }
            let l = trim(buf.take(p as int));
            let (ls, rest) = frame_lines(buf.skip((p + 1) as int));
            (if l.len() == 0 { ls } else { seq![l] + ls }, rest)
        },
    }
}

/// The index of the first line break in `v[from..]`.
fn next_newline(v: &Vec<char>, from: usize) -> (r: Option<usize>)
    requires
        from <= v.len(),
    ensures
        match r {
            Some(j) => from <= j < v.len() && newline_from(v@.skip(from as int), 0) == Some((j - from) as nat),
            None => newline_from(v@.skip(from as int), 0) is None,
        },
{
    let ghost rest = v@.skip(from as int);
    let mut j = from;
    while j < v.len()
        invariant
            from <= j <= v.len(),
            rest == v@.skip(from as int),
            newline_from(rest, 0) == newline_from(rest, (j - from) as nat),
        decreases v.len() - j,
    {
        assert(rest[j - from] == v@[j as int]);
        if v[j] == '\n' {
            return Some(j);
        }
        j = j + 1;
    }
    None
}

/// A buffer of received text that hands out complete lines.
pub struct LineFramer {
    buffer: String,
}

impl View for LineFramer {
    type V = Seq<char>;

    closed spec fn view(&self) -> Seq<char> {
        self.buffer@
    }
}

impl LineFramer {
    /// An empty buffer.
    pub fn new() -> (r: LineFramer)
        ensures
            r@ == Seq::<char>::empty(),
    {
        LineFramer { buffer: String::new() }
    }

    /// Appends `chunk` and returns the complete lines now buffered, trimmed,
    /// without the empty ones; keeps what follows the last line break.
    pub fn push(&mut self, chunk: &str) -> (r: Vec<String>)
        ensures
            r@.map_values(|s: String| s@) == frame_lines(old(self)@ + chunk@).0,
            final(self)@ == frame_lines(old(self)@ + chunk@).1,
    {
        let mut all = chars_of(self.buffer.as_str());
        let cv = chars_of(chunk);
        let mut k: usize = 0;
        let ghost a0 = all@;
        while k < cv.len()
            invariant
                0 <= k <= cv.len(),
                all@ == a0 + cv@.take(k as int),
            decreases cv.len() - k,
        {
            all.push(cv[k]);
            k = k + 1;
            assert(all@ =~= a0 + cv@.take(k as int));
        }
        assert(cv@.take(cv.len() as int) =~= cv@);
        assert(all@ == self@ + chunk@);
        let ghost total = all@;
        let mut lines: Vec<String> = Vec::new();
        let mut start: usize = 0;
        proof {
            assert(total.skip(0) =~= total);
            assert(lines@.map_values(|s: String| s@) + frame_lines(total).0 =~= frame_lines(total).0);
        }
        loop
            invariant
                0 <= start <= all.len(),
                all@ == total,
                (lines@.map_values(|s: String| s@) + frame_lines(total.skip(start as int)).0, frame_lines(total.skip(start as int)).1)
                    == frame_lines(total),
            ensures
                0 <= start <= all.len(),
                lines@.map_values(|s: String| s@) == frame_lines(total).0,
                total.skip(start as int) == frame_lines(total).1,
            decreases all.len() - start,
        {
            let ghost rest = total.skip(start as int);
            match next_newline(&all, start) {
                None => {
                    proof {
                        assert(lines@.map_values(|s: String| s@) =~= lines@.map_values(|s: String| s@) + frame_lines(rest).0);
                    }
                    break;
                },
                Some(i) => {
                    proof {
                        assert(rest.take((i - start) as int) =~= total.subrange(start as int, i as int));
                        assert(rest.skip((i - start) + 1) =~= total.skip(i + 1));
                    }
                    let (a, b) = trim_bounds(&all, start, i);
                    let ghost before = lines@.map_values(|s: String| s@);
                    let ghost l = trim(total.subrange(start as int, i as int));
                    if a < b {
                        let piece = sub_chars(&all, a, b);
                        lines.push(string_of(&piece));
                        assert(lines@.map_values(|s: String| s@) =~= before.push(l));
                        assert(before.push(l) + frame_lines(total.skip(i + 1)).0 =~= before + (seq![l] + frame_lines(total.skip(i + 1)).0));
                    } else {
                        assert(lines@.map_values(|s: String| s@) =~= before);
                    }
                    start = i + 1;
                },
            }
        }
        let tail = sub_chars(&all, start, all.len());
        assert(tail@ =~= total.skip(start as int));
        self.buffer = string_of(&tail);
        lines
    }
}

/// A Bedrock credential names an access key and a secret key, separated by `:`.
pub open spec fn valid_bedrock_key(key: Seq<char>) -> bool {
    has_substring(key, seq![':'])
}

/// Checks that `key` has the form `access_key:secret_key[:session_token]`.
pub fn check_bedrock_key(key: &str) -> (r: Result<(), ProviderError>)
    ensures
        valid_bedrock_key(key@) ==> r is Ok,
        !valid_bedrock_key(key@) ==> (r matches Err(ProviderError::Auth(m))
            && m@ == "Bedrock api_key must be 'access_key:secret_key[:session_token]'"@),
{
    let v = chars_of(key);
    let colon = vec![':'];
    assert(colon@ =~= seq![':']);
    if crate::strs::contains_chars(&v, &colon) {
        Ok(())
    } else {
        Err(ProviderError::Auth(to_owned_string("Bedrock api_key must be 'access_key:secret_key[:session_token]'")))
    }
}

} // verus!
