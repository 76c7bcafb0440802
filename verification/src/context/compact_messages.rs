//! Tiered compaction of a message list into a token budget:
//! level 1 truncates tool outputs, level 2 summarises old turns,
//! level 3 drops middle messages.
use vstd::prelude::*;
use crate::context::lines::{truncate_text_head_tail, truncated_text};
use crate::context::token::{estimate_message, estimate_messages, msg_tokens, msgs_tokens, HeuristicTokenCounter, TokenCounter};
use crate::strs::{byte_len, cap_usize, decimal, push_char, push_decimal, push_str, utf8_len};
use crate::types::{
    clone_contents, clone_message_range, clone_opt_turn_id, clone_strings, contents_view, msgs_view, now_ms, user_text_v, AgentMessage,
    AgentMessageV, Content, ContentV, LlmMessage, LlmMessageV, Message, MessageV,
};

verus! {

broadcast use vstd::string::group_string_axioms;

/// The limits that tiered compaction reads.
pub struct LegacyCompactionLimits {
    /// The model's context window.
    pub max_context_tokens: usize,
    /// Tokens reserved for the system prompt.
    pub system_prompt_tokens: usize,
    /// Messages kept verbatim at the end.
    pub keep_recent: usize,
    /// Messages kept verbatim at the start (level 3).
    pub keep_first: usize,
    /// Lines kept per tool output (level 1).
    pub tool_output_max_lines: usize,
}

// ---------------------------------------------------------------------------
// Level 1
// ---------------------------------------------------------------------------

/// A text block truncated to `max` lines; other blocks unchanged.
pub open spec fn truncate_block(b: ContentV, max: nat) -> ContentV {
    match b {
        ContentV::Text { text } => ContentV::Text { text: truncated_text(text, max) },
        _ => b,
    }
}

/// A tool result with its text blocks truncated (keeping its turn, node and tags);
/// any other message unchanged.
pub open spec fn level1_msg(m: AgentMessageV, max: nat) -> AgentMessageV {
    match m {
        AgentMessageV::Llm(lm) => match lm.message {
            MessageV::ToolResult { tool_call_id, tool_name, content, is_error, timestamp } =>
                AgentMessageV::Llm(LlmMessageV {
                    message: MessageV::ToolResult {
                        tool_call_id,
                        tool_name,
                        content: content.map_values(|b: ContentV| truncate_block(b, max)),
                        is_error,
                        timestamp,
                    },
                    ..lm
                }),
            _ => m,
        },
        _ => m,
    }
}

/// Level 1 applied to every message.
pub open spec fn level1(msgs: Seq<AgentMessageV>, max: nat) -> Seq<AgentMessageV> {
    msgs.map_values(|m: AgentMessageV| level1_msg(m, max))
}

pub fn truncate_contents(content: &Vec<Content>, max_lines: usize) -> (r: Vec<Content>)
    ensures
        contents_view(r@) == contents_view(content@).map_values(|b: ContentV| truncate_block(b, max_lines as nat)),
{
    let mut r: Vec<Content> = Vec::new();
    let mut i: usize = 0;
    while i < content.len()
        invariant
            0 <= i <= content.len(),
            r@.len() == i,
            forall|j: int| 0 <= j < i ==> (#[trigger] r@[j])@ == truncate_block(content@[j]@, max_lines as nat),
        decreases content.len() - i,
    {
        let b = match &content[i] {
            Content::Text { text } => Content::Text { text: truncate_text_head_tail(text.as_str(), max_lines) },
            other => other.clone(),
        };
        r.push(b);
        i = i + 1;
    }
    assert(contents_view(r@) =~= contents_view(content@).map_values(|b: ContentV| truncate_block(b, max_lines as nat)));
    r
}

pub(crate) fn level1_one(msg: &AgentMessage, max_lines: usize) -> (r: AgentMessage)
    ensures
        r@ == level1_msg(msg@, max_lines as nat),
{
    match msg {
        AgentMessage::Llm(lm) => match &lm.message {
            Message::ToolResult { tool_call_id, tool_name, content, is_error, timestamp } => {
                let truncated = truncate_contents(content, max_lines);
                let r = AgentMessage::Llm(LlmMessage {
                    message: Message::ToolResult {
                        tool_call_id: tool_call_id.clone(),
                        tool_name: tool_name.clone(),
                        content: truncated,
                        is_error: *is_error,
                        timestamp: *timestamp,
                    },
                    turn_id: clone_opt_turn_id(&lm.turn_id),
                    node_id: lm.node_id,
                    parent_id: lm.parent_id,
                    tags: clone_strings(&lm.tags),
                });
                assert(r@ =~= level1_msg(msg@, max_lines as nat));
                r
            },
            _ => msg.clone(),
        },
        _ => msg.clone(),
    }
}

/// Level 1: truncate the text of every tool result to head and tail lines.
/// Every other message passes through unchanged.
pub fn level1_truncate_tool_outputs(messages: &Vec<AgentMessage>, max_lines: usize) -> (r: Vec<AgentMessage>)
    ensures
        msgs_view(r@) == level1(msgs_view(messages@), max_lines as nat),
{
    let mut r: Vec<AgentMessage> = Vec::new();
    let mut i: usize = 0;
    while i < messages.len()
        invariant
            0 <= i <= messages.len(),
            r@.len() == i,
            forall|j: int| 0 <= j < i ==> (#[trigger] r@[j])@ == level1_msg(messages@[j]@, max_lines as nat),
        decreases messages.len() - i,
    {
        r.push(level1_one(&messages[i], max_lines));
        i = i + 1;
    }
    assert(msgs_view(r@) =~= level1(msgs_view(messages@), max_lines as nat));
    r
}

// ---------------------------------------------------------------------------
// Keeping a budgeted suffix
// ---------------------------------------------------------------------------

/// How many messages at the end of `msgs` fit in `budget`, taking them newest first
/// and stopping at the first one that does not fit.
pub open spec fn fitting_suffix_len<C: TokenCounter>(c: &C, msgs: Seq<AgentMessageV>, budget: nat) -> nat
    decreases msgs.len(),
{
    if msgs.len() == 0 {
        0
    } else {
        let t = cap_usize(msg_tokens(c, msgs.last()));
        if t > budget {
            0
        } else {
            1 + fitting_suffix_len(c, msgs.drop_last(), (budget - t) as nat)
        }
    }
}

/// The text of the marker that replaces `n` dropped messages.
pub open spec fn removed_marker_text(n: nat) -> Seq<char> {
    "[Context compacted: "@ + decimal(n) + " messages removed]"@
}

/// The last `k` messages of `msgs`, preceded by a marker counting the others.
pub open spec fn marked_suffix(msgs: Seq<AgentMessageV>, k: nat, ts: u64) -> Seq<AgentMessageV> {
    seq![user_text_v(removed_marker_text((msgs.len() - k) as nat), ts)] + msgs.skip(msgs.len() - k)
}

/// The longest marked suffix of at most `k` messages whose estimate, marker
/// included, fits `budget`; empty when not even the marker alone fits.
pub open spec fn marked_within<C: TokenCounter>(c: &C, msgs: Seq<AgentMessageV>, k: nat, budget: nat, ts: u64) -> Seq<AgentMessageV>
    decreases k,
{
    if cap_usize(msgs_tokens(c, marked_suffix(msgs, k, ts))) <= budget {
        marked_suffix(msgs, k, ts)
    } else if k == 0 {
        seq![]
    } else {
        marked_within(c, msgs, (k - 1) as nat, budget, ts)
    }
}

/// The messages kept within `budget`: all of them when they fit; otherwise the
/// longest suffix that fits together with a leading marker counting the dropped
/// messages (nothing when not even the marker fits).
pub open spec fn keep_within_budget_spec<C: TokenCounter>(c: &C, msgs: Seq<AgentMessageV>, budget: nat, ts: u64) -> Seq<AgentMessageV> {
    let k = fitting_suffix_len(c, msgs, budget);
    if k < msgs.len() {
        marked_within(c, msgs, k, budget, ts)
    } else {
        msgs.skip(msgs.len() - k)
    }
}

/// A marked suffix always fits its budget, or is empty.
proof fn lemma_marked_within_fits<C: TokenCounter>(c: &C, msgs: Seq<AgentMessageV>, k: nat, budget: nat, ts: u64)
    ensures
        cap_usize(msgs_tokens(c, marked_within(c, msgs, k, budget, ts))) <= budget,
    decreases k,
{
    if cap_usize(msgs_tokens(c, marked_suffix(msgs, k, ts))) <= budget {
    } else if k == 0 {
        assert(msgs_tokens(c, Seq::<AgentMessageV>::empty()) == 0);
    } else {
        lemma_marked_within_fits(c, msgs, (k - 1) as nat, budget, ts);
    }
}

proof fn lemma_fitting_suffix_le<C: TokenCounter>(c: &C, msgs: Seq<AgentMessageV>, budget: nat)
    ensures
        fitting_suffix_len(c, msgs, budget) <= msgs.len(),
    decreases msgs.len(),
{
    if msgs.len() > 0 {
        let t = cap_usize(msg_tokens(c, msgs.last()));
        if t <= budget {
            lemma_fitting_suffix_le(c, msgs.drop_last(), (budget - t) as nat);
        }
    }
}

/// Keep as many of the newest messages as fit within `budget`; when some are
/// dropped, a user message `"[Context compacted: N messages removed]"` stamped `ts` leads the
/// result, and room is left for it, so the result as a whole fits the budget.
pub fn keep_within_budget_with_counter<C: TokenCounter>(
    messages: &Vec<AgentMessage>,
    budget: usize,
    counter: &C,
    ts: u64,
) -> (r: Vec<AgentMessage>)
    ensures
        msgs_view(r@) == keep_within_budget_spec(counter, msgs_view(messages@), budget as nat, ts),
{
    let ghost mv = msgs_view(messages@);
    let mut remaining = budget;
    let mut start = messages.len();
    assert(mv.take(messages.len() as int) =~= mv);
    // Walk backwards while the message before `start` fits.
    loop
        invariant
            0 <= start <= messages.len(),
            mv == msgs_view(messages@),
            remaining <= budget,
            fitting_suffix_len(counter, mv, budget as nat)
                == (messages.len() - start) + fitting_suffix_len(counter, mv.take(start as int), remaining as nat),
        ensures
            0 <= start <= messages.len(),
            fitting_suffix_len(counter, mv, budget as nat) == messages.len() - start,
        decreases start,
    {
        if start == 0 {
            assert(mv.take(0).len() == 0);
            break;
        }
        let tokens = estimate_message(counter, &messages[start - 1]);
        proof {
            assert(mv.take(start as int).last() == messages@[start - 1]@);
            assert(mv.take(start as int).drop_last() =~= mv.take(start - 1));
        }
        if tokens > remaining {
            break;
        }
        remaining = remaining - tokens;
        start = start - 1;
    }
    if start == 0 {
        let r = clone_message_range(messages, 0, messages.len());
        assert(mv.subrange(0, messages.len() as int) =~= mv.skip(0));
        return r;
    }
    let len = messages.len();
    let mut k: usize = len - start;
    loop
        invariant
            k <= len == messages.len(),
            start > 0,
            mv == msgs_view(messages@),
            fitting_suffix_len(counter, mv, budget as nat) == len - start,
            keep_within_budget_spec(counter, mv, budget as nat, ts) == marked_within(counter, mv, k as nat, budget as nat, ts),
        decreases k,
    {
        let cand = marked_candidate(messages, k, ts);
        if estimate_messages(counter, &cand) <= budget {
            return cand;
        }
        if k == 0 {
            return Vec::new();
        }
        k = k - 1;
    }
}

/// The last `k` messages, cloned, behind a marker counting the dropped ones.
fn marked_candidate(messages: &Vec<AgentMessage>, k: usize, ts: u64) -> (r: Vec<AgentMessage>)
    requires
        k <= messages.len(),
    ensures
        msgs_view(r@) == marked_suffix(msgs_view(messages@), k as nat, ts),
{
    let len = messages.len();
    let mut text = String::new();
    push_str(&mut text, "[Context compacted: ");
    push_decimal(&mut text, (len - k) as u64);
    push_str(&mut text, " messages removed]");
    let marker = AgentMessage::user_text_at(text, ts);
    let mut r: Vec<AgentMessage> = Vec::new();
    r.push(marker);
    let ghost head = msgs_view(r@);
    let mut rest = clone_message_range(messages, len - k, len);
    let ghost tail = msgs_view(rest@);
    r.append(&mut rest);
    assert(msgs_view(r@) =~= head + tail);
    assert(msgs_view(messages@).subrange((len - k) as int, len as int) =~= msgs_view(messages@).skip((len - k) as int));
    assert(msgs_view(messages@.subrange((len - k) as int, len as int)) =~= msgs_view(messages@).subrange((len - k) as int, len as int));
    r
}

// ---------------------------------------------------------------------------
// Level 2
// ---------------------------------------------------------------------------

/// The texts of the text blocks of at most 200 UTF-8 bytes, in order.
pub open spec fn short_texts(content: Seq<ContentV>) -> Seq<Seq<char>>
    decreases content.len(),
{
    if content.len() == 0 {
        seq![]
    } else {
        let p = short_texts(content.drop_last());
        match content.last() {
            ContentV::Text { text } => if utf8_len(text) <= 200 { p.push(text) } else { p },
            _ => p,
        }
    }
}

/// The number of tool calls among the blocks.
pub open spec fn tool_call_count(content: Seq<ContentV>) -> nat
    decreases content.len(),
{
    if content.len() == 0 {
        0
    } else {
        tool_call_count(content.drop_last()) + if content.last() is ToolCall { 1nat } else { 0nat }
    }
}

/// The texts joined with single spaces.
pub open spec fn join_spaced(ls: Seq<Seq<char>>) -> Seq<char>
    decreases ls.len(),
{
    if ls.len() == 0 {
        seq![]
    } else if ls.len() == 1 {
        ls[0]
    } else {
        join_spaced(ls.drop_last()) + seq![' '] + ls.last()
    }
}

/// The one-line summary that replaces an old assistant message: its short texts
/// joined by spaces, or a count of its tool calls, or a generic placeholder.
pub open spec fn summary_text(content: Seq<ContentV>) -> Seq<char> {
    let parts = short_texts(content);
    let n = tool_call_count(content);
    "[Summary] "@ + if parts.len() > 0 {
        join_spaced(parts)
    } else if n > 0 {
        "[Assistant used "@ + decimal(n) + " tool(s)]"@
    } else {
        "[Assistant response]"@
    }
}

/// Whether a message is an LLM tool result.
pub open spec fn is_tool_result_v(m: AgentMessageV) -> bool {
    m matches AgentMessageV::Llm(lm) && lm.message is ToolResult
}

/// What an old message becomes in level 2: an assistant message is replaced by a
/// user-role summary stamped `ts`, a tool result is dropped, anything else is kept.
pub open spec fn summarize_msg(m: AgentMessageV, ts: u64) -> Seq<AgentMessageV> {
    match m {
        AgentMessageV::Llm(lm) => match lm.message {
            MessageV::Assistant { content, .. } => seq![user_text_v(summary_text(content), ts)],
            MessageV::ToolResult { .. } => seq![],
            _ => seq![m],
        },
        _ => seq![m],
    }
}

/// Level 2 applied to every message of `msgs`.
pub open spec fn summarize_all(msgs: Seq<AgentMessageV>, ts: u64) -> Seq<AgentMessageV>
    decreases msgs.len(),
{
    if msgs.len() == 0 {
        seq![]
    } else {
        summarize_all(msgs.drop_last(), ts) + summarize_msg(msgs.last(), ts)
    }
}

/// Level 2: the last `keep_recent` messages verbatim, the older ones summarised.
pub open spec fn level2(msgs: Seq<AgentMessageV>, keep_recent: nat, ts: u64) -> Seq<AgentMessageV> {
    if msgs.len() <= keep_recent {
        msgs
    } else {
        let boundary = msgs.len() - keep_recent;
        summarize_all(msgs.take(boundary), ts) + msgs.skip(boundary)
    }
}

pub fn summary_for(content: &Vec<Content>) -> (r: String)
    ensures
        r@ == summary_text(contents_view(content@)),
{
    let ghost cv = contents_view(content@);
    let mut parts = String::new();
    let mut nparts: usize = 0;
    let mut ntools: u64 = 0;
    let mut i: usize = 0;
    while i < content.len()
        invariant
            0 <= i <= content.len(),
            cv == contents_view(content@),
            nparts as nat == short_texts(cv.take(i as int)).len(),
            parts@ == join_spaced(short_texts(cv.take(i as int))),
            ntools as nat == tool_call_count(cv.take(i as int)),
            ntools <= i,
            nparts <= i,
        decreases content.len() - i,
    {
        assert(cv.take(i + 1).drop_last() =~= cv.take(i as int));
        assert(cv.take(i + 1).last() == content@[i as int]@);
        match &content[i] {
            Content::Text { text } => {
                let n = byte_len(text.as_str());
                if n <= 200 {
                    let ghost sp = short_texts(cv.take(i as int));
                    let ghost before = parts@;
                    if nparts > 0 {
                        push_char(&mut parts, ' ');
                    }
                    push_str(&mut parts, text.as_str());
                    nparts = nparts + 1;
                    proof {
                        assert(short_texts(cv.take(i + 1)) == sp.push(text@));
                        assert(sp.push(text@).drop_last() =~= sp);
                        if sp.len() == 0 {
                            assert(parts@ =~= text@);
                        } else {
                            assert(parts@ =~= before + seq![' '] + text@);
                        }
                    }
                }
            },
            Content::ToolCall { .. } => {
                ntools = ntools + 1;
            },
            _ => {},
        }
        i = i + 1;
    }
    assert(cv.take(content.len() as int) =~= cv);
    let mut r = String::new();
    push_str(&mut r, "[Summary] ");
    if nparts > 0 {
        push_str(&mut r, parts.as_str());
    } else if ntools > 0 {
        push_str(&mut r, "[Assistant used ");
        push_decimal(&mut r, ntools);
        push_str(&mut r, " tool(s)]");
    } else {
        push_str(&mut r, "[Assistant response]");
    }
    r
}

/// Level 2 with every summary stamped `ts`.
pub fn summarize_old_turns_at(messages: &Vec<AgentMessage>, keep_recent: usize, ts: u64) -> (r: Vec<AgentMessage>)
    ensures
        msgs_view(r@) == level2(msgs_view(messages@), keep_recent as nat, ts),
{
    let ghost mv = msgs_view(messages@);
    let len = messages.len();
    if len <= keep_recent {
        return crate::types::clone_messages(messages);
    }
    let boundary = len - keep_recent;
    let mut r: Vec<AgentMessage> = Vec::new();
    let mut i: usize = 0;
    while i < boundary
        invariant
            0 <= i <= boundary <= messages.len(),
            mv == msgs_view(messages@),
            msgs_view(r@) == summarize_all(mv.take(i as int), ts),
        decreases boundary - i,
    {
        let ghost old_r = msgs_view(r@);
        assert(mv.take(i + 1).drop_last() =~= mv.take(i as int));
        assert(mv.take(i + 1).last() == messages@[i as int]@);
        match &messages[i] {
            AgentMessage::Llm(lm) => match &lm.message {
                Message::Assistant { content, .. } => {
                    let text = summary_for(content);
                    let m = AgentMessage::user_text_at(text, ts);
                    r.push(m);
                    assert(msgs_view(r@) =~= old_r + seq![m@]);
                },
                Message::ToolResult { .. } => {
                    assert(old_r + seq![] =~= old_r);
                },
                _ => {
                    let m = messages[i].clone();
                    r.push(m);
                    assert(msgs_view(r@) =~= old_r + seq![m@]);
                },
            },
            _ => {
                let m = messages[i].clone();
                r.push(m);
                assert(msgs_view(r@) =~= old_r + seq![m@]);
            },
        }
        i = i + 1;
    }
    let ghost prefix = msgs_view(r@);
    let mut j: usize = boundary;
    while j < len
        invariant
            boundary <= j <= len == messages.len(),
            mv == msgs_view(messages@),
            msgs_view(r@) == prefix + mv.subrange(boundary as int, j as int),
        decreases len - j,
    {
        assert(mv[j as int] == messages@[j as int]@);
        let ghost old_r = r@;
        let c = messages[j].clone();
        r.push(c);
        assert(msgs_view(r@) =~= msgs_view(old_r).push(c@));
        assert(mv.subrange(boundary as int, j + 1) =~= mv.subrange(boundary as int, j as int).push(mv[j as int]));
        j = j + 1;
    }
    assert(mv.subrange(boundary as int, len as int) =~= mv.skip(boundary as int));
    r
}

/// Level 2: keep the last `keep_recent` messages in full; before them, replace each
/// assistant message with a one-line user-role `"[Summary] ..."`, drop tool results,
/// and keep everything else. All summaries carry one timestamp, read once from the clock.
pub fn level2_summarize_old_turns(messages: &Vec<AgentMessage>, keep_recent: usize) -> (r: Vec<AgentMessage>)
    ensures
        exists|ts: u64| msgs_view(r@) == level2(msgs_view(messages@), keep_recent as nat, ts),
{
    summarize_old_turns_at(messages, keep_recent, now_ms())
}

// ---------------------------------------------------------------------------
// Level 3
// ---------------------------------------------------------------------------

/// The text of the marker that replaces `n` dropped middle messages.
pub open spec fn dropped_middle_text(n: nat) -> Seq<char> {
    "[Context compacted: "@ + decimal(n) + " messages removed to fit context window]"@
}

/// Level 3: keep the first `keep_first` and the last `keep_recent` messages with a
/// marker between them; when the two ranges meet, or the result still exceeds the
/// budget, keep only the newest messages that fit.
pub open spec fn level3<C: TokenCounter>(
    c: &C,
    msgs: Seq<AgentMessageV>,
    keep_first: nat,
    keep_recent: nat,
    budget: nat,
    ts: u64,
) -> Seq<AgentMessageV> {
    let len = msgs.len();
    let first_end = if keep_first < len { keep_first } else { len };
    let recent_start: nat = if keep_recent > len { 0 } else { (len - keep_recent) as nat };
    if first_end >= recent_start {
        keep_within_budget_spec(c, msgs, budget, ts)
    } else {
        let result = msgs.take(first_end as int) + seq![
            user_text_v(dropped_middle_text((recent_start - first_end) as nat), ts),
        ] + msgs.skip(recent_start as int);
        if cap_usize(msgs_tokens(c, result)) > budget {
            keep_within_budget_spec(c, result, budget, ts)
        } else {
            result
        }
    }
}

/// Level 3 with markers stamped `ts`.
pub fn level3_drop_middle_with_counter<C: TokenCounter>(
    messages: &Vec<AgentMessage>,
    keep_first: usize,
    keep_recent: usize,
    budget: usize,
    counter: &C,
    ts: u64,
) -> (r: Vec<AgentMessage>)
    ensures
        msgs_view(r@) == level3(counter, msgs_view(messages@), keep_first as nat, keep_recent as nat, budget as nat, ts),
{
    let ghost mv = msgs_view(messages@);
    let len = messages.len();
    let first_end = if keep_first < len { keep_first } else { len };
    let recent_start = len.saturating_sub(keep_recent);
    if first_end >= recent_start {
        return keep_within_budget_with_counter(messages, budget, counter, ts);
    }
    let removed = recent_start - first_end;
    let mut text = String::new();
    push_str(&mut text, "[Context compacted: ");
    push_decimal(&mut text, removed as u64);
    push_str(&mut text, " messages removed to fit context window]");
    let marker = AgentMessage::user_text_at(text, ts);
    let mut result = clone_message_range(messages, 0, first_end);
    let ghost before = msgs_view(result@);
    result.push(marker);
    assert(msgs_view(result@) =~= before + seq![marker@]);
    let rest = clone_message_range(messages, recent_start, len);
    let ghost with_marker = msgs_view(result@);
    let mut rest = rest;
    result.append(&mut rest);
    assert(msgs_view(result@) =~= with_marker + msgs_view(messages@.subrange(recent_start as int, len as int)));
    assert(mv.subrange(0, first_end as int) =~= mv.take(first_end as int));
    assert(mv.subrange(recent_start as int, len as int) =~= mv.skip(recent_start as int));
    assert(msgs_view(result@) =~= mv.take(first_end as int) + seq![
        user_text_v(dropped_middle_text(removed as nat), ts),
    ] + mv.skip(recent_start as int));
    let est = estimate_messages(counter, &result);
    if est > budget {
        return keep_within_budget_with_counter(&result, budget, counter, ts);
    }
    result
}

// ---------------------------------------------------------------------------
// Tiered compaction
// ---------------------------------------------------------------------------

/// The token budget for messages: the context window minus the system prompt reserve (at least 0).
pub open spec fn message_budget(lim: LegacyCompactionLimits) -> nat {
    if lim.system_prompt_tokens > lim.max_context_tokens {
        0
    } else {
        (lim.max_context_tokens - lim.system_prompt_tokens) as nat
    }
}

/// Tiered compaction: the first of `msgs`, level 1, level 2 and level 3 (each applied
/// to the previous one) whose estimate fits the budget, level 3 when none does.
pub open spec fn compacted<C: TokenCounter>(
    c: &C,
    msgs: Seq<AgentMessageV>,
    lim: LegacyCompactionLimits,
    ts: u64,
) -> Seq<AgentMessageV> {
    let budget = message_budget(lim);
    if cap_usize(msgs_tokens(c, msgs)) <= budget {
        msgs
    } else {
        let c1 = level1(msgs, lim.tool_output_max_lines as nat);
        if cap_usize(msgs_tokens(c, c1)) <= budget {
            c1
        } else {
            let c2 = level2(c1, lim.keep_recent as nat, ts);
            if cap_usize(msgs_tokens(c, c2)) <= budget {
                c2
            } else {
                level3(c, c2, lim.keep_first as nat, lim.keep_recent as nat, budget, ts)
            }
        }
    }
}

/// Tiered compaction with every created message stamped `ts`.
pub fn compact_messages_at<C: TokenCounter>(
    messages: Vec<AgentMessage>,
    limits: &LegacyCompactionLimits,
    counter: &C,
    ts: u64,
) -> (r: Vec<AgentMessage>)
    ensures
        msgs_view(r@) == compacted(counter, msgs_view(messages@), *limits, ts),
{
    let budget = limits.max_context_tokens.saturating_sub(limits.system_prompt_tokens);
    if estimate_messages(counter, &messages) <= budget {
        return messages;
    }
    let c1 = level1_truncate_tool_outputs(&messages, limits.tool_output_max_lines);
    if estimate_messages(counter, &c1) <= budget {
        return c1;
    }
    let c2 = summarize_old_turns_at(&c1, limits.keep_recent, ts);
    if estimate_messages(counter, &c2) <= budget {
        return c2;
    }
    level3_drop_middle_with_counter(&c2, limits.keep_first, limits.keep_recent, budget, counter, ts)
}

/// Compact `messages` to fit the budget `max_context_tokens - system_prompt_tokens`
/// with the given token counter: level 1 truncates tool outputs, level 2 summarises
/// old turns, level 3 drops middle messages; the first level that fits is returned.
/// Messages created here carry one timestamp, read once from the clock.
pub fn compact_messages_with_counter<C: TokenCounter>(
    messages: Vec<AgentMessage>,
    limits: &LegacyCompactionLimits,
    counter: &C,
) -> (r: Vec<AgentMessage>)
    ensures
        exists|ts: u64| msgs_view(r@) == compacted(counter, msgs_view(messages@), *limits, ts),
{
    compact_messages_at(messages, limits, counter, now_ms())
}

/// Tiered compaction with the heuristic token counter.
pub fn compact_messages(messages: Vec<AgentMessage>, limits: &LegacyCompactionLimits) -> (r: Vec<AgentMessage>)
    ensures
        exists|ts: u64| msgs_view(r@) == compacted(&HeuristicTokenCounter, msgs_view(messages@), *limits, ts),
{
    compact_messages_at(messages, limits, &HeuristicTokenCounter, now_ms())
}

/// Messages whose estimate fits the budget are returned unchanged.
pub proof fn law_fitting_messages_unchanged<C: TokenCounter>(
    c: &C,
    msgs: Seq<AgentMessageV>,
    lim: LegacyCompactionLimits,
    ts: u64,
)
    requires
        cap_usize(msgs_tokens(c, msgs)) <= message_budget(lim),
    ensures
        compacted(c, msgs, lim, ts) == msgs,
{
}

/// Level 1 keeps the number and order of messages and leaves every message that is
/// not a tool result unchanged.
pub proof fn law_level1_preserves_non_tool_results(msgs: Seq<AgentMessageV>, max: nat, i: int)
    requires
        0 <= i < msgs.len(),
        !is_tool_result_v(msgs[i]),
    ensures
        level1(msgs, max).len() == msgs.len(),
        level1(msgs, max)[i] == msgs[i],
{
}

/// The messages kept within a budget are a suffix of the input whose estimate fits
/// the budget (the dropped-count marker, when present, comes on top of it).
pub proof fn law_kept_suffix_fits<C: TokenCounter>(c: &C, msgs: Seq<AgentMessageV>, budget: nat)
    requires
        budget < usize::MAX,
    ensures
        fitting_suffix_len(c, msgs, budget) <= msgs.len(),
        msgs_tokens(c, msgs.skip(msgs.len() - fitting_suffix_len(c, msgs, budget))) <= budget,
    decreases msgs.len(),
{
    lemma_fitting_suffix_le(c, msgs, budget);
    if msgs.len() == 0 {
        assert(msgs.skip(0) =~= msgs);
    } else {
        let t = cap_usize(msg_tokens(c, msgs.last()));
        let k = fitting_suffix_len(c, msgs, budget);
        if t > budget {
            assert(msgs.skip(msgs.len() - 0).len() == 0);
            assert(msgs.skip(msgs.len() - 0) =~= Seq::<AgentMessageV>::empty());
        } else {
            let rest = msgs.drop_last();
            let b2 = (budget - t) as nat;
            law_kept_suffix_fits(c, rest, b2);
            let k2 = fitting_suffix_len(c, rest, b2);
            let sfx = msgs.skip(msgs.len() - k);
            assert(sfx.drop_last() =~= rest.skip(rest.len() - k2));
            assert(sfx.last() == msgs.last());
            assert(msg_tokens(c, msgs.last()) == t);
        }
    }
}


/// The messages kept within a budget fit it, the dropped-count marker included.
pub proof fn law_kept_within_budget_fits<C: TokenCounter>(c: &C, msgs: Seq<AgentMessageV>, budget: nat, ts: u64)
    requires
        budget <= usize::MAX,
    ensures
        cap_usize(msgs_tokens(c, keep_within_budget_spec(c, msgs, budget, ts))) <= budget,
{
    let k = fitting_suffix_len(c, msgs, budget);
    lemma_fitting_suffix_le(c, msgs, budget);
    if k < msgs.len() {
        lemma_marked_within_fits(c, msgs, k, budget, ts);
    } else if budget < usize::MAX {
        law_kept_suffix_fits(c, msgs, budget);
    }
}

/// Tiered compaction always ends within the budget.
pub proof fn law_compaction_fits_budget<C: TokenCounter>(c: &C, msgs: Seq<AgentMessageV>, lim: LegacyCompactionLimits, ts: u64)
    ensures
        cap_usize(msgs_tokens(c, compacted(c, msgs, lim, ts))) <= message_budget(lim),
{
    let budget = message_budget(lim);
    let c1 = level1(msgs, lim.tool_output_max_lines as nat);
    let c2 = level2(c1, lim.keep_recent as nat, ts);
    let len = c2.len();
    let kf = lim.keep_first as nat;
    let kr = lim.keep_recent as nat;
    let first_end = if kf < len { kf } else { len };
    let recent_start: nat = if kr > len { 0 } else { (len - kr) as nat };
    law_kept_within_budget_fits(c, c2, budget, ts);
    if first_end < recent_start {
        let result = c2.take(first_end as int) + seq![
            user_text_v(dropped_middle_text((recent_start - first_end) as nat), ts),
        ] + c2.skip(recent_start as int);
        law_kept_within_budget_fits(c, result, budget, ts);
    }
}

} // verus!
