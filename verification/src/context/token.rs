//! Token estimation: a pluggable per-text counter and the sums built on it.
use vstd::prelude::*;
use crate::strs::{byte_len, cap_usize, utf8_len};
use crate::types::{contents_view, msgs_view, AgentMessage, AgentMessageV, Content, ContentV, Message, MessageV};

verus! {

/// Pluggable token counting strategy. Only `estimate_text` is model-specific;
/// the estimates of content blocks, messages and message lists are built on it
/// by [`estimate_content`], [`estimate_message`] and [`estimate_messages`].
pub trait TokenCounter {
    /// The token count that this counter assigns to a text.
    spec fn text_tokens(&self, text: Seq<char>) -> nat;

    /// Estimate tokens for a raw text string.
    fn estimate_text(&self, text: &str) -> (n: usize)
        ensures
            n as nat == self.text_tokens(text@);
}

/// Default token counter: one token per four UTF-8 bytes, rounded up.
pub struct HeuristicTokenCounter;

/// `ceil(n / 4)`.
pub open spec fn div_ceil4(n: nat) -> nat {
    (n + 3) / 4
}

/// The heuristic token count of a text: its (capped) UTF-8 byte length divided by four, rounded up.
pub open spec fn heuristic_tokens(text: Seq<char>) -> nat {
    div_ceil4(cap_usize(utf8_len(text)))
}

impl TokenCounter for HeuristicTokenCounter {
    open spec fn text_tokens(&self, text: Seq<char>) -> nat {
        heuristic_tokens(text)
    }

    fn estimate_text(&self, text: &str) -> (n: usize) {
        let b = byte_len(text);
        b / 4 + if b % 4 == 0 { 0 } else { 1 }
    }
}

/// The counter picked by [`resolve_counter`]: the one supplied, or the heuristic one.
pub enum ResolvedCounter<'a, C: TokenCounter> {
    Given(&'a C),
    Heuristic(HeuristicTokenCounter),
}

impl<'a, C: TokenCounter> TokenCounter for ResolvedCounter<'a, C> {
    open spec fn text_tokens(&self, text: Seq<char>) -> nat {
        match self {
            ResolvedCounter::Given(c) => c.text_tokens(text),
            ResolvedCounter::Heuristic(_) => heuristic_tokens(text),
        }
    }

    fn estimate_text(&self, text: &str) -> (n: usize) {
        match self {
            ResolvedCounter::Given(c) => c.estimate_text(text),
            ResolvedCounter::Heuristic(h) => h.estimate_text(text),
        }
    }
}

/// The supplied counter, or [`HeuristicTokenCounter`] when there is none.
pub fn resolve_counter<'a, C: TokenCounter>(counter: Option<&'a C>) -> (r: ResolvedCounter<'a, C>)
    ensures
        forall|text: Seq<char>| #[trigger] r.text_tokens(text) == match counter {
            Some(c) => c.text_tokens(text),
            None => heuristic_tokens(text),
        },
{
    match counter {
        Some(c) => ResolvedCounter::Given(c),
        None => ResolvedCounter::Heuristic(HeuristicTokenCounter),
    }
}

/// Token estimate of an inline image whose base64 payload is `nbytes` long:
/// the decoded size (three quarters of the payload) divided by 750, clamped to `[85, 16000]`.
pub open spec fn image_tokens(nbytes: nat) -> nat {
    let raw = nbytes * 3 / 4;
    let t = raw / 750;
    if t < 85 { 85 } else if t > 16000 { 16000 } else { t }
}

/// Token estimate of one content block.
pub open spec fn block_tokens<C: TokenCounter>(c: &C, b: ContentV) -> nat {
    match b {
        ContentV::Text { text } => c.text_tokens(text),
        ContentV::Image { data, .. } => image_tokens(cap_usize(utf8_len(data))),
        ContentV::Thinking { thinking, .. } => c.text_tokens(thinking),
        ContentV::ToolCall { name, arguments, .. } => c.text_tokens(name) + c.text_tokens(arguments) + 8,
    }
}

/// Token estimate of a list of content blocks: the sum over the blocks.
pub open spec fn blocks_tokens<C: TokenCounter>(c: &C, s: Seq<ContentV>) -> nat
    decreases s.len(),
{
    if s.len() == 0 {
        0
    } else {
        blocks_tokens(c, s.drop_last()) + block_tokens(c, s.last())
    }
}

/// Token estimate of one message: its content plus a fixed per-message overhead
/// (4 for user, assistant and extension messages; 8 plus the tool name for tool results).
pub open spec fn msg_tokens<C: TokenCounter>(c: &C, m: AgentMessageV) -> nat {
    match m {
        AgentMessageV::Llm(lm) => match lm.message {
            MessageV::User { content, .. } => blocks_tokens(c, content) + 4,
            MessageV::Assistant { content, .. } => blocks_tokens(c, content) + 4,
            MessageV::ToolResult { content, tool_name, .. } =>
                blocks_tokens(c, content) + c.text_tokens(tool_name) + 8,
        },
        AgentMessageV::Extension(e) => c.text_tokens(e.data) + 4,
    }
}

/// Token estimate of a message list: the sum over the messages.
pub open spec fn msgs_tokens<C: TokenCounter>(c: &C, s: Seq<AgentMessageV>) -> nat
    decreases s.len(),
{
    if s.len() == 0 {
        0
    } else {
        msgs_tokens(c, s.drop_last()) + msg_tokens(c, s.last())
    }
}

/// Token estimate of a content list (capped at `usize::MAX`).
pub fn estimate_content<C: TokenCounter>(counter: &C, content: &Vec<Content>) -> (n: usize)
    ensures
        n as nat == cap_usize(blocks_tokens(counter, contents_view(content@))),
{
    let mut n: usize = 0;
    let mut i: usize = 0;
    while i < content.len()
        invariant
            0 <= i <= content.len(),
            n as nat == cap_usize(blocks_tokens(counter, contents_view(content@.take(i as int)))),
        decreases content.len() - i,
    {
        let t = estimate_block(counter, &content[i]);
        assert(contents_view(content@.take(i + 1)).drop_last() =~= contents_view(content@.take(i as int)));
        n = n.saturating_add(t);
        i = i + 1;
    }
    assert(content@.take(content.len() as int) =~= content@);
    n
}

fn estimate_block<C: TokenCounter>(counter: &C, b: &Content) -> (n: usize)
    ensures
        n as nat == cap_usize(block_tokens(counter, b@)),
{
    match b {
        Content::Text { text } => counter.estimate_text(text.as_str()),
        Content::Image { data, .. } => {
            let nbytes = byte_len(data.as_str());
            // nbytes * 3 / 4, computed without overflow
            let raw = nbytes / 4 * 3 + (nbytes % 4) * 3 / 4;
            assert(raw == nbytes * 3 / 4) by (nonlinear_arith)
                requires raw == nbytes / 4 * 3 + (nbytes % 4) * 3 / 4;
            let t = raw / 750;
            if t < 85 { 85 } else if t > 16000 { 16000 } else { t }
        },
        Content::Thinking { thinking, .. } => counter.estimate_text(thinking.as_str()),
        Content::ToolCall { name, arguments, .. } => {
            let a = counter.estimate_text(name.as_str());
            let b2 = counter.estimate_text(arguments.as_str());
            a.saturating_add(b2).saturating_add(8)
        },
    }
}

/// Token estimate of one message (capped at `usize::MAX`).
pub fn estimate_message<C: TokenCounter>(counter: &C, msg: &AgentMessage) -> (n: usize)
    ensures
        n as nat == cap_usize(msg_tokens(counter, msg@)),
{
    match msg {
        AgentMessage::Llm(lm) => match &lm.message {
            Message::User { content, .. } => estimate_content(counter, content).saturating_add(4),
            Message::Assistant { content, .. } => estimate_content(counter, content).saturating_add(4),
            Message::ToolResult { content, tool_name, .. } => {
                let a = estimate_content(counter, content);
                let b = counter.estimate_text(tool_name.as_str());
                a.saturating_add(b).saturating_add(8)
            },
        },
        AgentMessage::Extension(ext) => counter.estimate_text(ext.data.as_str()).saturating_add(4),
    }
}

/// Token estimate of a message list (capped at `usize::MAX`).
pub fn estimate_messages<C: TokenCounter>(counter: &C, msgs: &Vec<AgentMessage>) -> (n: usize)
    ensures
        n as nat == cap_usize(msgs_tokens(counter, msgs_view(msgs@))),
{
    let mut n: usize = 0;
    let mut i: usize = 0;
    while i < msgs.len()
        invariant
            0 <= i <= msgs.len(),
            n as nat == cap_usize(msgs_tokens(counter, msgs_view(msgs@.take(i as int)))),
        decreases msgs.len() - i,
    {
        let t = estimate_message(counter, &msgs[i]);
        assert(msgs_view(msgs@.take(i + 1)).drop_last() =~= msgs_view(msgs@.take(i as int)));
        n = n.saturating_add(t);
        i = i + 1;
    }
    assert(msgs@.take(msgs.len() as int) =~= msgs@);
    n
}

/// Rough token estimate of a text: ~4 UTF-8 bytes per token, rounded up.
pub fn estimate_tokens(text: &str) -> (n: usize)
    ensures
        n as nat == heuristic_tokens(text@),
{
    HeuristicTokenCounter.estimate_text(text)
}

/// Heuristic token estimate of a single message.
pub fn message_tokens(msg: &AgentMessage) -> (n: usize)
    ensures
        n as nat == cap_usize(msg_tokens(&HeuristicTokenCounter, msg@)),
{
    estimate_message(&HeuristicTokenCounter, msg)
}

/// Heuristic token estimate of a content list.
pub fn content_tokens(content: &Vec<Content>) -> (n: usize)
    ensures
        n as nat == cap_usize(blocks_tokens(&HeuristicTokenCounter, contents_view(content@))),
{
    estimate_content(&HeuristicTokenCounter, content)
}

/// Heuristic token estimate of a message list.
pub fn total_tokens(messages: &Vec<AgentMessage>) -> (n: usize)
    ensures
        n as nat == cap_usize(msgs_tokens(&HeuristicTokenCounter, msgs_view(messages@))),
{
    estimate_messages(&HeuristicTokenCounter, messages)
}

/// The token estimate of a message list is additive over concatenation.
pub proof fn lemma_msgs_tokens_concat<C: TokenCounter>(c: &C, a: Seq<AgentMessageV>, b: Seq<AgentMessageV>)
    ensures
        msgs_tokens(c, a + b) == msgs_tokens(c, a) + msgs_tokens(c, b),
    decreases b.len(),
{
    if b.len() == 0 {
        assert(a + b =~= a);
    } else {
        lemma_msgs_tokens_concat(c, a, b.drop_last());
        assert((a + b).drop_last() =~= a + b.drop_last());
    }
}

/// Totals add up: the empty list counts 0, a one-message list counts that message,
/// and the total of two lists put together is the sum of their totals; with the
/// `usize::MAX` cap of the executable totals, it is their saturating sum.
pub proof fn law_totals_add<C: TokenCounter>(c: &C, a: Seq<AgentMessageV>, b: Seq<AgentMessageV>, m: AgentMessageV)
    ensures
        msgs_tokens(c, seq![]) == 0,
        msgs_tokens(c, seq![m]) == msg_tokens(c, m),
        msgs_tokens(c, a + b) == msgs_tokens(c, a) + msgs_tokens(c, b),
        cap_usize(msgs_tokens(c, a + b)) == cap_usize(cap_usize(msgs_tokens(c, a)) + cap_usize(msgs_tokens(c, b))),
{
    lemma_msgs_tokens_concat(c, a, b);
    assert(seq![m].drop_last() =~= Seq::<AgentMessageV>::empty());
}

} // verus!
