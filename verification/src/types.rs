//! The conversation data model: content blocks, messages, usage and identifiers.
//!
//! Tool-call arguments and extension payloads are JSON documents; the library
//! holds them as their compact JSON text, which is what every computation
//! here reads of them.
use vstd::prelude::*;
use std::time::Duration;
use crate::strs::{chars_of, decimal, push_decimal, to_owned_string};

verus! {

/// A block of message content.
#[derive(Debug)]
pub enum Content {
    Text { text: String },
    Image { data: String, mime_type: String },
    Thinking { thinking: String, signature: Option<String> },
    /// `arguments` is the compact JSON text of the call's argument object.
    ToolCall { id: String, name: String, arguments: String },
}

/// Why the model stopped generating.
#[derive(PartialEq, Eq, Structural, Clone, Copy, Debug)]
pub enum StopReason {
    Stop,
    Length,
    ToolUse,
    Error,
    Aborted,
}

/// Token usage reported by a provider for one response.
#[derive(PartialEq, Eq, Structural, Clone, Copy, Debug)]
pub struct Usage {
    pub input: u64,
    pub output: u64,
    pub reasoning: u64,
    pub cache_read: u64,
    pub cache_write: u64,
    pub total_tokens: u64,
}

/// An LLM-level message.
#[derive(Debug)]
pub enum Message {
    User { content: Vec<Content>, timestamp: u64 },
    Assistant {
        content: Vec<Content>,
        stop_reason: StopReason,
        model: String,
        provider: String,
        usage: Usage,
        timestamp: u64,
        error_message: Option<String>,
    },
    ToolResult {
        tool_call_id: String,
        tool_name: String,
        content: Vec<Content>,
        is_error: bool,
        timestamp: u64,
    },
}

/// Identifies a turn within a loop.
#[derive(Debug)]
pub struct TurnId {
    pub loop_id: String,
    pub turn_index: u32,
}

/// A node in the conversation tree, rendered inline as `n{index}`.
#[derive(PartialEq, Eq, Structural, Clone, Copy, Debug)]
pub struct NodeId(pub u64);

/// An LLM message together with its position in the loop and the conversation tree.
#[derive(Debug)]
pub struct LlmMessage {
    pub message: Message,
    pub turn_id: Option<TurnId>,
    pub node_id: Option<NodeId>,
    pub parent_id: Option<NodeId>,
    pub tags: Vec<String>,
}

/// An application-defined message that is not sent to the model as-is.
/// `data` is the compact JSON text of the payload.
#[derive(Debug)]
pub struct ExtensionMessage {
    pub kind: String,
    pub data: String,
}

/// Any message stored in an agent's context.
#[derive(Debug)]
pub enum AgentMessage {
    Llm(LlmMessage),
    Extension(ExtensionMessage),
}

/// The mathematical value of a [`Content`] block: strings as character sequences.
pub enum ContentV {
    Text { text: Seq<char> },
    Image { data: Seq<char>, mime_type: Seq<char> },
    Thinking { thinking: Seq<char>, signature: Option<Seq<char>> },
    ToolCall { id: Seq<char>, name: Seq<char>, arguments: Seq<char> },
}

/// The mathematical value of a [`TurnId`].
pub struct TurnIdV {
    pub loop_id: Seq<char>,
    pub turn_index: u32,
}

/// The mathematical value of a [`Message`].
pub enum MessageV {
    User { content: Seq<ContentV>, timestamp: u64 },
    Assistant {
        content: Seq<ContentV>,
        stop_reason: StopReason,
        model: Seq<char>,
        provider: Seq<char>,
        usage: Usage,
        timestamp: u64,
        error_message: Option<Seq<char>>,
    },
    ToolResult {
        tool_call_id: Seq<char>,
        tool_name: Seq<char>,
        content: Seq<ContentV>,
        is_error: bool,
        timestamp: u64,
    },
}

/// The mathematical value of an [`LlmMessage`].
pub struct LlmMessageV {
    pub message: MessageV,
    pub turn_id: Option<TurnIdV>,
    pub node_id: Option<NodeId>,
    pub parent_id: Option<NodeId>,
    pub tags: Seq<Seq<char>>,
}

/// The mathematical value of an [`ExtensionMessage`].
pub struct ExtensionMessageV {
    pub kind: Seq<char>,
    pub data: Seq<char>,
}

/// The mathematical value of an [`AgentMessage`].
pub enum AgentMessageV {
    Llm(LlmMessageV),
    Extension(ExtensionMessageV),
}

/// The value of an optional string.
pub open spec fn opt_str_view(s: Option<String>) -> Option<Seq<char>> {
    match s {
        Some(x) => Some(x@),
        None => None,
    }
}

/// The values of a list of strings.
pub open spec fn strs_view(v: Seq<String>) -> Seq<Seq<char>> {
    v.map_values(|x: String| x@)
}

/// The values of a list of content blocks.
pub open spec fn contents_view(v: Seq<Content>) -> Seq<ContentV> {
    v.map_values(|c: Content| c@)
}

impl View for Content {
    type V = ContentV;

    open spec fn view(&self) -> ContentV {
        match self {
            Content::Text { text } => ContentV::Text { text: text@ },
            Content::Image { data, mime_type } => ContentV::Image { data: data@, mime_type: mime_type@ },
            Content::Thinking { thinking, signature } => ContentV::Thinking {
                thinking: thinking@,
                signature: opt_str_view(*signature),
            },
            Content::ToolCall { id, name, arguments } => ContentV::ToolCall {
                id: id@,
                name: name@,
                arguments: arguments@,
            },
        }
    }
}

impl View for TurnId {
    type V = TurnIdV;

    open spec fn view(&self) -> TurnIdV {
        TurnIdV { loop_id: self.loop_id@, turn_index: self.turn_index }
    }
}

/// The value of an optional turn id.
pub open spec fn opt_turn_view(t: Option<TurnId>) -> Option<TurnIdV> {
    match t {
        Some(x) => Some(x@),
        None => None,
    }
}

impl View for Message {
    type V = MessageV;

    open spec fn view(&self) -> MessageV {
        match self {
            Message::User { content, timestamp } => MessageV::User {
                content: contents_view(content@),
                timestamp: *timestamp,
            },
            Message::Assistant { content, stop_reason, model, provider, usage, timestamp, error_message } =>
                MessageV::Assistant {
                    content: contents_view(content@),
                    stop_reason: *stop_reason,
                    model: model@,
                    provider: provider@,
                    usage: *usage,
                    timestamp: *timestamp,
                    error_message: opt_str_view(*error_message),
                },
            Message::ToolResult { tool_call_id, tool_name, content, is_error, timestamp } =>
                MessageV::ToolResult {
                    tool_call_id: tool_call_id@,
                    tool_name: tool_name@,
                    content: contents_view(content@),
                    is_error: *is_error,
                    timestamp: *timestamp,
                },
        }
    }
}

impl View for LlmMessage {
    type V = LlmMessageV;

    open spec fn view(&self) -> LlmMessageV {
        LlmMessageV {
            message: self.message@,
            turn_id: opt_turn_view(self.turn_id),
            node_id: self.node_id,
            parent_id: self.parent_id,
            tags: strs_view(self.tags@),
        }
    }
}

impl View for ExtensionMessage {
    type V = ExtensionMessageV;

    open spec fn view(&self) -> ExtensionMessageV {
        ExtensionMessageV { kind: self.kind@, data: self.data@ }
    }
}

impl View for AgentMessage {
    type V = AgentMessageV;

    open spec fn view(&self) -> AgentMessageV {
        match self {
            AgentMessage::Llm(lm) => AgentMessageV::Llm(lm@),
            AgentMessage::Extension(e) => AgentMessageV::Extension(e@),
        }
    }
}

/// The values of a list of messages.
pub open spec fn msgs_view(v: Seq<AgentMessage>) -> Seq<AgentMessageV> {
    v.map_values(|m: AgentMessage| m@)
}

/// The four reasons a conversation branch is rewound.
#[derive(PartialEq, Eq, Structural, Clone, Copy, Debug)]
pub enum RevertCategory {
    Failure,
    Tangent,
    Completion,
    StepSummary,
}

#[verifier::external_type_specification]
#[verifier::external_body]
pub struct ExSystemTime(std::time::SystemTime);

/// `SystemTime::now`: the system clock's reading; nothing is claimed of it.
#[verifier::external_body]
fn system_time_now() -> std::time::SystemTime {
    std::time::SystemTime::now()
}

/// `SystemTime::duration_since(UNIX_EPOCH)`: how long after the Unix epoch `t` lies,
/// or `None` when `t` lies before it. Nothing is claimed of which case comes, nor of
/// the length, as both follow from the clock's reading.
#[verifier::external_body]
fn since_epoch(t: &std::time::SystemTime) -> Option<Duration> {
    t.duration_since(std::time::UNIX_EPOCH).ok()
}

/// The whole milliseconds of `d`, as `Duration::as_millis` computes them.
pub uninterp spec fn millis_of(d: Duration) -> u128;

/// `Duration::as_millis`.
#[verifier::external_body]
fn duration_as_millis(d: &Duration) -> (r: u128)
    ensures
        r == millis_of(*d),
{
    d.as_millis()
}

/// Milliseconds since the Unix epoch, read from the system clock; 0 when the
/// clock reads before the epoch.
pub(crate) fn now_ms() -> u64 {
    match since_epoch(&system_time_now()) {
        Some(d) => {
            let ms = duration_as_millis(&d);
            #[verifier::truncate]
            (ms as u64)
        },
        None => 0,
    }
}

/// Milliseconds since the Unix epoch as a signed count, read from the system
/// clock: 0 when the clock reads before the epoch, and the largest count past it.
pub(crate) fn utc_now_millis() -> i64 {
    let ms = now_ms();
    if ms <= 9223372036854775807u64 {
        ms as i64
    } else {
        9223372036854775807i64
    }
}

impl Default for Usage {
    fn default() -> (r: Self)
        ensures
            r == (Usage { input: 0, output: 0, reasoning: 0, cache_read: 0, cache_write: 0, total_tokens: 0 }),
    {
        Usage { input: 0, output: 0, reasoning: 0, cache_read: 0, cache_write: 0, total_tokens: 0 }
    }
}

impl Clone for Content {
    fn clone(&self) -> (r: Self)
        ensures
            r@ == self@,
    {
        match self {
            Content::Text { text } => Content::Text { text: text.clone() },
            Content::Image { data, mime_type } => Content::Image { data: data.clone(), mime_type: mime_type.clone() },
            Content::Thinking { thinking, signature } => Content::Thinking {
                thinking: thinking.clone(),
                signature: clone_opt_string(signature),
            },
            Content::ToolCall { id, name, arguments } => Content::ToolCall {
                id: id.clone(),
                name: name.clone(),
                arguments: arguments.clone(),
            },
        }
    }
}

/// A copy of an optional string.
pub fn clone_opt_string(s: &Option<String>) -> (r: Option<String>)
    ensures
        r == *s,
{
    match s {
        Some(x) => Some(x.clone()),
        None => None,
    }
}

/// A copy of a list of strings.
pub fn clone_strings(v: &Vec<String>) -> (r: Vec<String>)
    ensures
        r@ == v@,
        strs_view(r@) == strs_view(v@),
{
    let mut r: Vec<String> = Vec::new();
    let mut i: usize = 0;
    while i < v.len()
        invariant
            0 <= i <= v.len(),
            r@ == v@.take(i as int),
        decreases v.len() - i,
    {
        r.push(v[i].clone());
        i = i + 1;
        assert(r@ =~= v@.take(i as int));
    }
    assert(v@.take(v.len() as int) =~= v@);
    r
}

/// A copy of a list of content blocks.
pub fn clone_contents(v: &Vec<Content>) -> (r: Vec<Content>)
    ensures
        contents_view(r@) == contents_view(v@),
{
    let mut r: Vec<Content> = Vec::new();
    let mut i: usize = 0;
    while i < v.len()
        invariant
            0 <= i <= v.len(),
            r@.len() == i,
            forall|j: int| 0 <= j < i ==> (#[trigger] r@[j])@ == v@[j]@,
        decreases v.len() - i,
    {
        r.push(v[i].clone());
        i = i + 1;
    }
    assert(contents_view(r@) =~= contents_view(v@));
    r
}

impl Clone for Message {
    fn clone(&self) -> (r: Self)
        ensures
            r@ == self@,
    {
        match self {
            Message::User { content, timestamp } => Message::User {
                content: clone_contents(content),
                timestamp: *timestamp,
            },
            Message::Assistant { content, stop_reason, model, provider, usage, timestamp, error_message } =>
                Message::Assistant {
                    content: clone_contents(content),
                    stop_reason: *stop_reason,
                    model: model.clone(),
                    provider: provider.clone(),
                    usage: *usage,
                    timestamp: *timestamp,
                    error_message: clone_opt_string(error_message),
                },
            Message::ToolResult { tool_call_id, tool_name, content, is_error, timestamp } =>
                Message::ToolResult {
                    tool_call_id: tool_call_id.clone(),
                    tool_name: tool_name.clone(),
                    content: clone_contents(content),
                    is_error: *is_error,
                    timestamp: *timestamp,
                },
        }
    }
}

impl Clone for TurnId {
    fn clone(&self) -> (r: Self)
        ensures
            r@ == self@,
    {
        TurnId { loop_id: self.loop_id.clone(), turn_index: self.turn_index }
    }
}

/// A copy of an optional turn id.
pub fn clone_opt_turn_id(t: &Option<TurnId>) -> (r: Option<TurnId>)
    ensures
        opt_turn_view(r) == opt_turn_view(*t),
{
    match t {
        Some(x) => Some(x.clone()),
        None => None,
    }
}

impl Clone for LlmMessage {
    fn clone(&self) -> (r: Self)
        ensures
            r@ == self@,
    {
        LlmMessage {
            message: self.message.clone(),
            turn_id: clone_opt_turn_id(&self.turn_id),
            node_id: self.node_id,
            parent_id: self.parent_id,
            tags: clone_strings(&self.tags),
        }
    }
}

impl Clone for ExtensionMessage {
    fn clone(&self) -> (r: Self)
        ensures
            r@ == self@,
    {
        ExtensionMessage { kind: self.kind.clone(), data: self.data.clone() }
    }
}

impl Clone for AgentMessage {
    fn clone(&self) -> (r: Self)
        ensures
            r@ == self@,
    {
        match self {
            AgentMessage::Llm(lm) => AgentMessage::Llm(lm.clone()),
            AgentMessage::Extension(e) => AgentMessage::Extension(e.clone()),
        }
    }
}

/// A copy of a list of messages.
pub fn clone_messages(v: &Vec<AgentMessage>) -> (r: Vec<AgentMessage>)
    ensures
        msgs_view(r@) == msgs_view(v@),
{
    let mut r: Vec<AgentMessage> = Vec::new();
    let mut i: usize = 0;
    while i < v.len()
        invariant
            0 <= i <= v.len(),
            r@.len() == i,
            forall|j: int| 0 <= j < i ==> (#[trigger] r@[j])@ == v@[j]@,
        decreases v.len() - i,
    {
        r.push(v[i].clone());
        i = i + 1;
    }
    assert(msgs_view(r@) =~= msgs_view(v@));
    r
}

/// The copy of `v[start..end]`.
pub fn clone_message_range(v: &Vec<AgentMessage>, start: usize, end: usize) -> (r: Vec<AgentMessage>)
    requires
        start <= end <= v.len(),
    ensures
        msgs_view(r@) == msgs_view(v@.subrange(start as int, end as int)),
{
    let mut r: Vec<AgentMessage> = Vec::new();
    let mut i: usize = start;
    while i < end
        invariant
            start <= i <= end <= v.len(),
            r@.len() == i - start,
            forall|j: int| 0 <= j < i - start ==> (#[trigger] r@[j])@ == v@[start + j]@,
        decreases end - i,
    {
        r.push(v[i].clone());
        i = i + 1;
    }
    assert(msgs_view(r@) =~= msgs_view(v@.subrange(start as int, end as int)));
    r
}

impl Message {
    /// A user message holding the single text block `text`, stamped with the current time.
    pub fn user(text: &str) -> (m: Message)
        ensures
            is_user_message_text(m, text@),
    {
        let mut content: Vec<Content> = Vec::new();
        content.push(Content::Text { text: to_owned_string(text) });
        assert(contents_view(content@) =~= seq![ContentV::Text { text: text@ }]);
        Message::User { content, timestamp: now_ms() }
    }

    /// The role name of this message: `user`, `assistant` or `toolResult`.
    pub fn role(&self) -> (r: &'static str)
        ensures
            r@ == self.spec_role(),
    {
        match self {
            Message::User { .. } => "user",
            Message::Assistant { .. } => "assistant",
            Message::ToolResult { .. } => "toolResult",
        }
    }

    pub open spec fn spec_role(&self) -> Seq<char> {
        match self {
            Message::User { .. } => "user"@,
            Message::Assistant { .. } => "assistant"@,
            Message::ToolResult { .. } => "toolResult"@,
        }
    }
}

impl LlmMessage {
    /// Wraps `message` with no turn, node, parent or tags.
    pub fn new(message: Message) -> (r: LlmMessage)
        ensures
            r.message == message,
            r@.message == message@,
            r@.tags == Seq::<Seq<char>>::empty(),
            r.turn_id is None,
            r.node_id is None,
            r.parent_id is None,
            r.tags@.len() == 0,
    {
        LlmMessage { message, turn_id: None, node_id: None, parent_id: None, tags: Vec::new() }
    }
}

impl AgentMessage {
    /// The turn index of an LLM message that carries a turn id.
    pub open spec fn turn_index_of(&self) -> Option<u32> {
        match self {
            AgentMessage::Llm(lm) => match lm.turn_id {
                Some(t) => Some(t.turn_index),
                None => None,
            },
            AgentMessage::Extension(_) => None,
        }
    }

    /// The turn index of this message, if it carries a turn id.
    pub fn turn_index(&self) -> (r: Option<u32>)
        ensures
            r == self.turn_index_of(),
    {
        match self {
            AgentMessage::Llm(lm) => match &lm.turn_id {
                Some(t) => Some(t.turn_index),
                None => None,
            },
            AgentMessage::Extension(_) => None,
        }
    }

    /// A user message holding the single text block `text`.
    pub fn user_text(text: String) -> (m: AgentMessage)
        ensures
            is_user_text(m, text@),
    {
        Self::user_text_at(text, now_ms())
    }

    /// A user message holding the single text block `text`, stamped `ts`.
    pub fn user_text_at(text: String, ts: u64) -> (m: AgentMessage)
        ensures
            m@ == user_text_v(text@, ts),
    {
        let ghost tv = text@;
        let mut content: Vec<Content> = Vec::new();
        content.push(Content::Text { text });
        assert(contents_view(content@) =~= seq![ContentV::Text { text: tv }]);
        AgentMessage::Llm(LlmMessage::new(Message::User { content, timestamp: ts }))
    }
}

/// `m` is a user message holding one text block equal to `text`.
pub open spec fn is_user_message_text(m: Message, text: Seq<char>) -> bool {
    &&& m@ matches MessageV::User { content, .. }
    &&& content == seq![ContentV::Text { text }]
}

/// `m` is a plain LLM user message (no turn, node or tags) holding one text block equal to `text`.
pub open spec fn is_user_text(m: AgentMessage, text: Seq<char>) -> bool {
    exists|ts: u64| m@ == user_text_v(text, ts)
}

/// The value of a plain LLM user message (no turn, node or tags) holding one
/// text block `text`, stamped `ts`.
pub open spec fn user_text_v(text: Seq<char>, ts: u64) -> AgentMessageV {
    AgentMessageV::Llm(LlmMessageV {
        message: MessageV::User { content: seq![ContentV::Text { text }], timestamp: ts },
        turn_id: None,
        node_id: None,
        parent_id: None,
        tags: seq![],
    })
}

/// The value of the decimal digits `d` (most significant first).
pub open spec fn digits_value(d: Seq<char>) -> nat
    decreases d.len(),
{
    if d.len() == 0 {
        0
    } else {
        digits_value(d.drop_last()) * 10 + ((d.last() as u32) - 48) as nat
    }
}

/// The digits of a node tag: what follows an optional leading `n`.
pub open spec fn node_digits(s: Seq<char>) -> Seq<char> {
    if s.len() > 0 && s[0] == 'n' {
        s.drop_first()
    } else {
        s
    }
}

/// The node a tag names: `n12` or `12` name node 12.
pub open spec fn parse_node(s: Seq<char>) -> Option<NodeId> {
    let d = node_digits(s);
    if d.len() > 0 && (forall|i: int| 0 <= i < d.len() ==> '0' <= #[trigger] d[i] <= '9') && digits_value(d) <= u64::MAX {
        Some(NodeId(digits_value(d) as u64))
    } else {
        None
    }
}

/// The inline tag of a node: `n` and its index.
pub open spec fn node_tag(n: NodeId) -> Seq<char> {
    seq!['n'] + decimal(n.0 as nat)
}

impl NodeId {
    /// Reads a node tag, leniently: `n12` and `12` both name node 12.
    pub fn parse(s: &str) -> (r: Option<NodeId>)
        ensures
            r == parse_node(s@),
    {
        let v = chars_of(s);
        let start: usize = if v.len() > 0 && v[0] == 'n' { 1 } else { 0 };
        let ghost d = node_digits(v@);
        proof {
            assert(d =~= v@.skip(start as int));
        }
        if start == v.len() {
            return None;
        }
        let mut value: u64 = 0;
        let mut i = start;
        while i < v.len()
            invariant
                start <= i <= v.len(),
                v@ == s@,
                d == node_digits(s@),
                d == v@.skip(start as int),
                d.len() == v.len() - start,
                forall|j: int| 0 <= j < i - start ==> '0' <= #[trigger] d[j] <= '9',
                value as nat == digits_value(d.take(i - start)),
            decreases v.len() - i,
        {
            let c = v[i];
            assert(d[i - start] == c);
            assert(d.take(i - start + 1).drop_last() =~= d.take(i - start));
            if c < '0' || c > '9' {
                assert(!('0' <= d[i - start] <= '9'));
                return None;
            }
            let digit = (c as u32 - 48) as u64;
            if value > (u64::MAX - digit) / 10 {
                proof {
                    if forall|j: int| 0 <= j < d.len() ==> '0' <= #[trigger] d[j] <= '9' {
                        lemma_digits_value_grows(d, (i - start + 1) as nat);
                        assert(digits_value(d.take(i - start + 1)) == value * 10 + digit);
                        assert(value * 10 + digit > u64::MAX) by (nonlinear_arith)
                            requires value > (u64::MAX - digit) / 10, digit <= 9;
                    }
                }
                return None;
            }
            value = value * 10 + digit;
            i = i + 1;
        }
        assert(d.take(i - start) =~= d);
        Some(NodeId(value))
    }

    /// The inline tag of the node, `n` and its index.
    pub fn to_string(&self) -> (r: String)
        ensures
            r@ == node_tag(*self),
    {
        let mut s = to_owned_string("n");
        proof {
            reveal_strlit("n");
        }
        push_decimal(&mut s, self.0);
        assert(s@ =~= node_tag(*self));
        s
    }
}

/// A prefix of digits is worth no more than the whole.
proof fn lemma_digits_value_grows(d: Seq<char>, k: nat)
    requires
        k <= d.len(),
        forall|i: int| 0 <= i < d.len() ==> '0' <= #[trigger] d[i] <= '9',
    ensures
        digits_value(d.take(k as int)) <= digits_value(d),
    decreases d.len() - k,
{
    if k < d.len() {
        lemma_digits_value_grows(d, k + 1);
        assert(d.take(k as int + 1).drop_last() =~= d.take(k as int));
        assert(digits_value(d.take(k as int + 1)) >= digits_value(d.take(k as int))) by (nonlinear_arith)
            requires digits_value(d.take(k as int + 1)) == digits_value(d.take(k as int)) * 10 + ((d.take(k as int + 1).last() as u32) - 48) as nat;
    } else {
        assert(d.take(k as int) =~= d);
    }
}

/// The kebab-case name of a category.
pub open spec fn category_name(c: RevertCategory) -> Seq<char> {
    match c {
        RevertCategory::Failure => "failure"@,
        RevertCategory::Tangent => "tangent"@,
        RevertCategory::Completion => "completion"@,
        RevertCategory::StepSummary => "step-summary"@,
    }
}

/// The Rust name of a category's variant, as debug output shows it.
pub open spec fn category_debug(c: RevertCategory) -> Seq<char> {
    match c {
        RevertCategory::Failure => "Failure"@,
        RevertCategory::Tangent => "Tangent"@,
        RevertCategory::Completion => "Completion"@,
        RevertCategory::StepSummary => "StepSummary"@,
    }
}

/// The category a kebab-case name names.
pub open spec fn parse_category(s: Seq<char>) -> Option<RevertCategory> {
    if s == "failure"@ {
        Some(RevertCategory::Failure)
    } else if s == "tangent"@ {
        Some(RevertCategory::Tangent)
    } else if s == "completion"@ {
        Some(RevertCategory::Completion)
    } else if s == "step-summary"@ {
        Some(RevertCategory::StepSummary)
    } else {
        None
    }
}

impl RevertCategory {
    /// Reads a category from its kebab-case name.
    pub fn parse(s: &str) -> (r: Option<RevertCategory>)
        ensures
            r == parse_category(s@),
    {
        if crate::strs::str_eq(s, "failure") {
            Some(RevertCategory::Failure)
        } else if crate::strs::str_eq(s, "tangent") {
            Some(RevertCategory::Tangent)
        } else if crate::strs::str_eq(s, "completion") {
            Some(RevertCategory::Completion)
        } else if crate::strs::str_eq(s, "step-summary") {
            Some(RevertCategory::StepSummary)
        } else {
            None
        }
    }

    /// The kebab-case name of the category.
    pub fn as_str(&self) -> (r: &'static str)
        ensures
            r@ == category_name(*self),
    {
        match self {
            RevertCategory::Failure => "failure",
            RevertCategory::Tangent => "tangent",
            RevertCategory::Completion => "completion",
            RevertCategory::StepSummary => "step-summary",
        }
    }

    /// The variant's name, as debug output shows it.
    pub fn debug_name(&self) -> (r: &'static str)
        ensures
            r@ == category_debug(*self),
    {
        match self {
            RevertCategory::Failure => "Failure",
            RevertCategory::Tangent => "Tangent",
            RevertCategory::Completion => "Completion",
            RevertCategory::StepSummary => "StepSummary",
        }
    }
}

proof fn lemma_decimal_digits(n: nat)
    ensures
        decimal(n).len() > 0,
        forall|i: int| 0 <= i < decimal(n).len() ==> '0' <= #[trigger] decimal(n)[i] <= '9',
        digits_value(decimal(n)) == n,
    decreases n,
{
    let d = (n % 10) as nat;
    assert(crate::strs::digit_char(d) as u32 - 48 == d && '0' <= crate::strs::digit_char(d) <= '9') by {
        assert(d < 10);
        if d == 0 {} else if d == 1 {} else if d == 2 {} else if d == 3 {} else if d == 4 {}
        else if d == 5 {} else if d == 6 {} else if d == 7 {} else if d == 8 {} else {}
    }
    if n >= 10 {
        lemma_decimal_digits(n / 10);
        let p = decimal(n / 10);
        assert(decimal(n).drop_last() =~= p);
        assert forall|i: int| 0 <= i < decimal(n).len() implies '0' <= #[trigger] decimal(n)[i] <= '9' by {
            if i < p.len() {
                assert(decimal(n)[i] == p[i]);
            }
        }
        assert(decimal(n).last() == crate::strs::digit_char(d));
        assert(digits_value(decimal(n)) == digits_value(p) * 10 + d);
        assert(n == (n / 10) * 10 + n % 10);
    } else {
        assert(decimal(n).drop_last() =~= seq![]);
        assert(n % 10 == n);
        assert(decimal(n).last() == crate::strs::digit_char(d));
        assert(digits_value(decimal(n)) == digits_value(decimal(n).drop_last()) * 10 + d);
    }
}

/// Reading a node's inline tag gives the node back.
pub proof fn law_node_tag_round_trip(n: NodeId)
    ensures
        parse_node(node_tag(n)) == Some(n),
{
    lemma_decimal_digits(n.0 as nat);
    assert(node_digits(node_tag(n)) =~= decimal(n.0 as nat));
}

/// Reading a category's name gives the category back.
pub proof fn law_category_round_trip(c: RevertCategory)
    ensures
        parse_category(category_name(c)) == Some(c),
{
    reveal_strlit("failure");
    reveal_strlit("tangent");
    reveal_strlit("completion");
    reveal_strlit("step-summary");
    assert("failure"@ != "tangent"@) by { assert("failure"@[0] != "tangent"@[0]); }
    assert("failure"@ != "completion"@) by { assert("failure"@[0] != "completion"@[0]); }
    assert("failure"@ != "step-summary"@) by { assert("failure"@[0] != "step-summary"@[0]); }
    assert("tangent"@ != "completion"@) by { assert("tangent"@[0] != "completion"@[0]); }
    assert("tangent"@ != "step-summary"@) by { assert("tangent"@[0] != "step-summary"@[0]); }
    assert("completion"@ != "step-summary"@) by { assert("completion"@[0] != "step-summary"@[0]); }
}

/// What started a turn.
#[derive(PartialEq, Eq, Structural, Clone, Copy, Debug)]
pub enum TurnTrigger {
    /// A prompt from the user.
    Prompt,
    /// The results of the previous turn's tool calls.
    ToolResults,
    /// A steering message injected while the loop ran.
    Steering,
    /// A follow-up message queued for after the loop.
    FollowUp,
}

/// How a loop continues the loop before it.
#[derive(PartialEq, Eq, Structural, Clone, Copy, Debug)]
pub enum ContinuationKind {
    /// A regular continuation.
    Default,
    /// A retry, or recovery from an error.
    Rerun,
    /// A branch explored from a node of the conversation tree.
    Branch { from_node: NodeId },
}

/// What an agent reports while it runs. Timestamps are milliseconds since
/// the Unix epoch (UTC); `metadata` is the compact JSON text of the caller's
/// metadata.
#[derive(Debug)]
pub enum AgentEvent {
    AgentStart {
        agent_id: String,
        session_id: String,
        loop_id: String,
        parent_loop_id: Option<String>,
        continuation_kind: Option<ContinuationKind>,
        timestamp: i64,
        metadata: Option<String>,
    },
    AgentEnd { loop_id: String, messages: Vec<AgentMessage>, usage: Usage, timestamp: i64, rejection: Option<String> },
    TurnStart { loop_id: String, turn_index: u32, timestamp: i64, triggered_by: TurnTrigger },
    TurnEnd { loop_id: String, message: AgentMessage, usage: Usage, timestamp: i64, tool_results: Vec<Message> },
    MessageStart { loop_id: String, message: AgentMessage },
    MessageUpdate { loop_id: String, message: AgentMessage, delta: crate::provider::events::StreamEvent },
    MessageEnd { loop_id: String, message: AgentMessage },
    ToolExecutionStart { loop_id: String, tool_call_id: String, tool_name: String, args: String },
    ToolExecutionUpdate { loop_id: String, tool_call_id: String, tool_name: String, partial: String },
    ToolExecutionEnd {
        loop_id: String,
        tool_call_id: String,
        tool_name: String,
        result: crate::tools::ToolResult,
        is_error: bool,
        child_loop_id: Option<String>,
    },
    ProgressMessage { loop_id: String, tool_call_id: String, text: String },
    InputRejected { loop_id: String, reason: String },
    CompactionStarted { loop_id: String, message_count: usize },
    CompactionEnded { loop_id: String, message_count: usize },
    ParallelLoopStart { loop_ids: Vec<String>, timestamp: i64 },
    ParallelLoopEnd { selected_loop_id: String, selected_config_index: usize, evaluation_usage: Usage, timestamp: i64 },
}

} // verus!
