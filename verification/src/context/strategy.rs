//! The default block compaction strategy: non-destructive overlays made of a
//! verbatim head, a summarised middle and a recent tail with truncated tool outputs.
use vstd::prelude::*;
use crate::context::compact_messages::{level1_msg, level1_one, summary_for, summary_text, compacted,
    compact_messages_with_counter, LegacyCompactionLimits};
use crate::context::token::TokenCounter;
use crate::context::compaction::{group_msgs, lemma_group_msgs_view, tiles, turn_scan, CompactedSection, TurnMap, TurnRange};
use crate::context::token::{estimate_tokens, heuristic_tokens};
use crate::types::{
    msgs_view, now_ms, user_text_v, utc_now_millis, AgentMessage, AgentMessageV, ContentV,
    LlmMessage, LlmMessageV, Message, MessageV,
};

verus! {

/// Non-destructive compaction overlay of a loop's messages.
pub struct CompactionBlock {
    /// Turns kept verbatim from the start (most recent loop only).
    pub keep_first: Option<TurnRange>,
    /// Recent turns with tool outputs truncated (most recent loop only).
    pub keep_recent: Option<CompactedSection>,
    /// Fully summarised middle section (most recent loop) or entire loop (older loops).
    pub keep_compacted: Option<CompactedSection>,
    /// When this block was created, in milliseconds since the Unix epoch (UTC).
    pub created_at: i64,
}

/// The parts of the compaction policy that the default block strategy reads.
#[derive(Clone, Copy)]
pub struct BlockCompactionParams {
    /// Turns kept verbatim from the start of the most recent loop.
    pub keep_first_turns: usize,
    /// Turns kept (with truncated tool outputs) at the end of the most recent loop.
    pub keep_recent_turns: usize,
    /// Token budget of the summarised section.
    pub max_summary_tokens: usize,
    /// Lines kept per tool output in the recent section.
    pub tool_output_max_lines: usize,
}

/// Default block-based compaction strategy; all parameters come from [`BlockCompactionParams`].
pub struct DefaultBlockCompaction;

/// The `keep_first` range for `total` turns: turns `0..min(keep_first_turns, total)`,
/// none when that is empty.
pub open spec fn keep_first_range(total: u32, keep_first_turns: usize) -> Option<TurnRange> {
    let k = keep_first_turns as u32;
    if total == 0 || k == 0 {
        None
    } else {
        let m = if k < total { k } else { total };
        Some(TurnRange { start_turn: 0, end_turn: (m - 1) as u32 })
    }
}

/// The `keep_recent` range for `total` turns: the last `keep_recent_turns` turns.
pub open spec fn keep_recent_range(total: u32, keep_recent_turns: usize) -> TurnRange {
    let k = keep_recent_turns as u32;
    TurnRange { start_turn: if k > total { 0 } else { (total - k) as u32 }, end_turn: (total - 1) as u32 }
}

/// The summarised section: one `"[Summary] ..."` user message per assistant message,
/// in order, each stamped `ts`, while their heuristic token estimates fit `budget`;
/// the first one that does not fit ends the section.
pub open spec fn summaries_within(msgs: Seq<AgentMessageV>, budget: nat, ts: u64) -> Seq<AgentMessageV>
    decreases msgs.len(),
{
    if msgs.len() == 0 {
        seq![]
    } else {
        match msgs[0] {
            AgentMessageV::Llm(lm) => match lm.message {
                MessageV::Assistant { content, .. } => {
                    let t = summary_text(content);
                    let est = heuristic_tokens(t);
                    if est > budget {
                        seq![]
                    } else {
                        seq![user_text_v(t, ts)] + summaries_within(msgs.drop_first(), (budget - est) as nat, ts)
                    }
                },
                _ => summaries_within(msgs.drop_first(), budget, ts),
            },
            _ => summaries_within(msgs.drop_first(), budget, ts),
        }
    }
}

/// The range that `keep_compacted` summarises for `total` turns: the middle between
/// `keep_first` and `keep_recent` for the most recent loop (none when they meet),
/// the whole loop otherwise.
pub open spec fn compacted_range(total: u32, p: BlockCompactionParams, is_most_recent: bool) -> Option<TurnRange> {
    if total == 0 {
        None
    } else if is_most_recent {
        let kf = p.keep_first_turns as u32;
        let first_end = if kf < total { kf } else { total };
        let kr = p.keep_recent_turns as u32;
        let recent_start: u32 = if kr > total { 0 } else { (total - kr) as u32 };
        if first_end >= recent_start {
            None
        } else {
            Some(TurnRange { start_turn: first_end, end_turn: (recent_start - 1) as u32 })
        }
    } else {
        Some(TurnRange { start_turn: 0, end_turn: (total - 1) as u32 })
    }
}

impl DefaultBlockCompaction {
    /// The turns kept verbatim from the start: `0..min(keep_first_turns, total)`;
    /// `None` without turns or when none are to be kept.
    pub fn keep_first(&self, turn_map: &TurnMap, params: &BlockCompactionParams) -> (r: Option<TurnRange>)
        ensures
            r == keep_first_range(turn_map@.len() as u32, params.keep_first_turns),
    {
        let total = turn_map.turn_count();
        let k = params.keep_first_turns as u32;
        if total == 0 || k == 0 {
            return None;
        }
        let m = if k < total { k } else { total };
        Some(TurnRange { start_turn: 0, end_turn: m - 1 })
    }

    /// The recent section: the last `keep_recent_turns` turns with their tool outputs
    /// truncated to `tool_output_max_lines`; `None` without turns.
    pub fn keep_recent(
        &self,
        messages: &Vec<AgentMessage>,
        turn_map: &TurnMap,
        params: &BlockCompactionParams,
    ) -> (r: Option<CompactedSection>)
        requires
            tiles(turn_map@, messages@.len()),
        ensures
            recent_section_is(r, msgs_view(messages@), turn_map@, *params),
    {
        let total = turn_map.turn_count();
        if total == 0 {
            return None;
        }
        let k = params.keep_recent_turns as u32;
        let range = TurnRange { start_turn: total.saturating_sub(k), end_turn: total - 1 };
        let msgs = turn_map.messages_for_range(&range, messages.as_slice());
        proof {
            lemma_group_msgs_view(turn_map@, range, messages@);
        }
        let ghost max = params.tool_output_max_lines as nat;
        let mut out: Vec<AgentMessage> = Vec::new();
        let mut i: usize = 0;
        while i < msgs.len()
            invariant
                0 <= i <= msgs@.len(),
                max == params.tool_output_max_lines as nat,
                out@.len() == i,
                forall|j: int| 0 <= j < i ==> (#[trigger] out@[j])@ == level1_msg(msgs@[j]@, max),
            decreases msgs@.len() - i,
        {
            out.push(level1_one(&msgs[i], params.tool_output_max_lines));
            i = i + 1;
        }
        assert(msgs_view(out@) =~= msgs_view(msgs@).map_values(|m: AgentMessageV| level1_msg(m, max)));
        Some(CompactedSection { range, messages: out })
    }

    /// The summarised section: per-assistant-message one-liners over `compacted_range`,
    /// until `max_summary_tokens` is exhausted; `None` when the range is empty or no summary fits.
    /// Summaries are stamped `ts`.
    pub fn keep_compacted_at(
        &self,
        messages: &Vec<AgentMessage>,
        turn_map: &TurnMap,
        params: &BlockCompactionParams,
        is_most_recent: bool,
        ts: u64,
    ) -> (r: Option<CompactedSection>)
        requires
            tiles(turn_map@, messages@.len()),
        ensures
            compacted_section_is(r, msgs_view(messages@), turn_map@, *params, is_most_recent, ts),
    {
        let total = turn_map.turn_count();
        if total == 0 {
            return None;
        }
        let range = if is_most_recent {
            let kf = params.keep_first_turns as u32;
            let first_end = if kf < total { kf } else { total };
            let recent_start = total.saturating_sub(params.keep_recent_turns as u32);
            if first_end >= recent_start {
                return None;
            }
            TurnRange { start_turn: first_end, end_turn: recent_start - 1 }
        } else {
            TurnRange { start_turn: 0, end_turn: total - 1 }
        };
        let msgs = turn_map.messages_for_range(&range, messages.as_slice());
        proof {
            lemma_group_msgs_view(turn_map@, range, messages@);
        }
        let ghost mv = msgs_view(msgs@);
        let ghost target = summaries_within(mv, params.max_summary_tokens as nat, ts);
        let mut summaries: Vec<AgentMessage> = Vec::new();
        let mut budget = params.max_summary_tokens;
        let mut i: usize = 0;
        let mut done = false;
        assert(mv.skip(0) =~= mv);
        assert(msgs_view(summaries@) =~= Seq::<AgentMessageV>::empty());
        assert(Seq::<AgentMessageV>::empty() + target =~= target);
        while i < msgs.len() && !done
            invariant
                0 <= i <= msgs@.len(),
                mv == msgs_view(msgs@),
                done ==> msgs_view(summaries@) == target,
                !done ==> msgs_view(summaries@) + summaries_within(mv.skip(i as int), budget as nat, ts) == target,
            decreases msgs@.len() - i,
        {
            let ghost rest = mv.skip(i as int);
            assert(rest.drop_first() =~= mv.skip(i + 1));
            assert(rest[0] == msgs@[i as int]@);
            match &msgs[i] {
                AgentMessage::Llm(lm) => match &lm.message {
                    Message::Assistant { content, .. } => {
                        let text = summary_for(content);
                        let est = estimate_tokens(text.as_str());
                        if est > budget {
                            done = true;
                            assert(msgs_view(summaries@) + seq![] =~= msgs_view(summaries@));
                        } else {
                            budget = budget - est;
                            let ghost before = msgs_view(summaries@);
                            let m = AgentMessage::user_text_at(text, ts);
                            summaries.push(m);
                            assert(msgs_view(summaries@) =~= before + seq![m@]);
                        }
                    },
                    _ => {},
                },
                _ => {},
            }
            i = i + 1;
        }
        if !done {
            assert(mv.skip(i as int).len() == 0);
            assert(msgs_view(summaries@) + seq![] =~= msgs_view(summaries@));
        }
        if summaries.len() == 0 {
            return None;
        }
        Some(CompactedSection { range, messages: summaries })
    }

    /// [`keep_compacted_at`](Self::keep_compacted_at) stamping the summaries with the current time.
    pub fn keep_compacted(
        &self,
        messages: &Vec<AgentMessage>,
        turn_map: &TurnMap,
        params: &BlockCompactionParams,
        is_most_recent: bool,
    ) -> (r: Option<CompactedSection>)
        requires
            tiles(turn_map@, messages@.len()),
        ensures
            exists|ts: u64| #[trigger] compacted_section_is(r, msgs_view(messages@), turn_map@, *params, is_most_recent, ts),
    {
        self.keep_compacted_at(messages, turn_map, params, is_most_recent, now_ms())
    }

    /// Assemble a [`CompactionBlock`] for a loop's messages: the three sections for
    /// the most recent loop, only the summarised one for older loops.
    #[verifier::spinoff_prover]
    pub fn compact(
        &self,
        messages: &Vec<AgentMessage>,
        params: &BlockCompactionParams,
        is_most_recent: bool,
    ) -> (r: CompactionBlock)
        ensures
            is_most_recent ==> r.keep_first == keep_first_range(
                turn_scan_len(messages@) as u32,
                params.keep_first_turns,
            ),
            !is_most_recent ==> r.keep_first is None && r.keep_recent is None,
            is_most_recent ==> (r.keep_recent is None <==> turn_scan_len(messages@) as u32 == 0),
            is_most_recent ==> recent_section_is(r.keep_recent, msgs_view(messages@), turn_scan(msgs_view(messages@)).0, *params),
            exists|ts: u64| #[trigger] compacted_section_is(
                r.keep_compacted,
                msgs_view(messages@),
                turn_scan(msgs_view(messages@)).0,
                *params,
                is_most_recent,
                ts,
            ),
    {
        let turn_map = TurnMap::from_messages(messages.as_slice());
        let keep_first = if is_most_recent { self.keep_first(&turn_map, params) } else { None };
        let keep_recent = if is_most_recent { self.keep_recent(messages, &turn_map, params) } else { None };
        let keep_compacted = self.keep_compacted(messages, &turn_map, params, is_most_recent);
        let ghost e = turn_scan(msgs_view(messages@)).0;
        assert(turn_map@ == e);
        assert(turn_scan_len(messages@) == e.len());
        CompactionBlock { keep_first, keep_recent, keep_compacted, created_at: utc_now_millis() }
    }
}

/// What the default strategy promises of a block it made for a loop whose
/// messages are `mv`: for the most recent loop, the kept head covers the first
/// turns and the tail holds the last turns with truncated tool outputs; for an
/// older loop, neither head nor tail; in both, the summarised section is the
/// summaries of the compacted range, stamped with one time.
pub open spec fn block_fits(b: CompactionBlock, mv: Seq<AgentMessageV>, params: BlockCompactionParams, recent: bool) -> bool {
    &&& recent ==> b.keep_first == keep_first_range(turn_scan(mv).0.len() as u32, params.keep_first_turns)
    &&& recent ==> (b.keep_recent is None <==> turn_scan(mv).0.len() as u32 == 0)
    &&& recent ==> recent_section_is(b.keep_recent, mv, turn_scan(mv).0, params)
    &&& !recent ==> b.keep_first is None && b.keep_recent is None
    &&& exists|ts: u64| #[trigger] compacted_section_is(b.keep_compacted, mv, turn_scan(mv).0, params, recent, ts)
}

/// A way of building the compaction block of a loop; callers may supply their
/// own, and [`DefaultBlockCompaction`] is the library's.
pub trait BlockCompactionStrategy {
    /// `b` is a block this strategy may build for a loop whose messages are `mv`.
    spec fn builds(&self, b: CompactionBlock, mv: Seq<AgentMessageV>, params: BlockCompactionParams, is_most_recent: bool) -> bool;

    /// The block for a loop's messages: for the most recent loop all sections,
    /// for an older one the summarised section.
    fn compact(&self, messages: &Vec<AgentMessage>, params: &BlockCompactionParams, is_most_recent: bool) -> (r: CompactionBlock)
        ensures
            self.builds(r, msgs_view(messages@), *params, is_most_recent);
}

impl BlockCompactionStrategy for DefaultBlockCompaction {
    open spec fn builds(&self, b: CompactionBlock, mv: Seq<AgentMessageV>, params: BlockCompactionParams, is_most_recent: bool) -> bool {
        block_fits(b, mv, params, is_most_recent)
    }

    fn compact(&self, messages: &Vec<AgentMessage>, params: &BlockCompactionParams, is_most_recent: bool) -> (r: CompactionBlock) {
        DefaultBlockCompaction::compact(self, messages, params, is_most_recent)
    }
}

/// `r` is the summarised section of `msgs` (grouped as `e`) with summaries stamped `ts`:
/// `None` when the range is empty or no summary fits, else the range and its summaries.
pub open spec fn compacted_section_is(
    r: Option<CompactedSection>,
    msgs: Seq<AgentMessageV>,
    e: Seq<(usize, usize)>,
    params: BlockCompactionParams,
    is_most_recent: bool,
    ts: u64,
) -> bool {
    match compacted_range(e.len() as u32, params, is_most_recent) {
        None => r is None,
        Some(rg) => {
            let sums = summaries_within(group_msgs(e, rg, msgs), params.max_summary_tokens as nat, ts);
            if sums.len() == 0 {
                r is None
            } else {
                (r matches Some(sec) && sec.range == rg && msgs_view(sec.messages@) == sums)
            }
        },
    }
}

/// `r` is the recent section of `msgs` (grouped as `e`): none without turns, else the
/// last `keep_recent_turns` turns with their tool outputs truncated.
pub open spec fn recent_section_is(
    r: Option<CompactedSection>,
    msgs: Seq<AgentMessageV>,
    e: Seq<(usize, usize)>,
    params: BlockCompactionParams,
) -> bool {
    if e.len() as u32 == 0 {
        r is None
    } else {
        r matches Some(sec) && {
            let range = keep_recent_range(e.len() as u32, params.keep_recent_turns);
            &&& sec.range == range
            &&& msgs_view(sec.messages@) == group_msgs(e, range, msgs).map_values(
                |m: AgentMessageV| level1_msg(m, params.tool_output_max_lines as nat),
            )
        }
    }
}

/// The number of turn groups of a message list.
pub open spec fn turn_scan_len(msgs: Seq<AgentMessage>) -> nat {
    crate::context::compaction::turn_scan(msgs_view(msgs)).0.len()
}

/// How many turns a block compaction folds: a fixed number, or as many as the
/// token budget requires.
#[derive(PartialEq, Eq, Structural, Clone, Copy, Debug)]
pub enum CompactionScope {
    FixedCount(usize),
    TokenBudget,
}

impl Default for CompactionScope {
    fn default() -> (r: Self)
        ensures
            r == CompactionScope::FixedCount(3),
    {
        CompactionScope::FixedCount(3)
    }
}

/// A way of compacting a message list in memory; callers may supply their
/// own, and [`DefaultCompaction`] is the library's.
pub trait CompactionStrategy<C: TokenCounter> {
    /// `after` is a compaction of `before` this strategy may return, measured with `c`.
    spec fn compacts(&self, c: &C, before: Seq<AgentMessageV>, limits: LegacyCompactionLimits, after: Seq<AgentMessageV>) -> bool;

    /// Compacts `messages` to fit `limits`, measuring with `counter`.
    fn compact(&self, messages: Vec<AgentMessage>, limits: &LegacyCompactionLimits, counter: &C) -> (r: Vec<AgentMessage>)
        ensures
            self.compacts(counter, msgs_view(messages@), *limits, msgs_view(r@));
}

/// The default in-memory compaction: tiered compaction of the messages within
/// the limits, with the given token counter.
pub struct DefaultCompaction;

impl<C: TokenCounter> CompactionStrategy<C> for DefaultCompaction {
    open spec fn compacts(&self, c: &C, before: Seq<AgentMessageV>, limits: LegacyCompactionLimits, after: Seq<AgentMessageV>) -> bool {
        exists|ts: u64| after == compacted(c, before, limits, ts)
    }

    fn compact(&self, messages: Vec<AgentMessage>, limits: &LegacyCompactionLimits, counter: &C) -> (r: Vec<AgentMessage>) {
        compact_messages_with_counter(messages, limits, counter)
    }
}

} // verus!
