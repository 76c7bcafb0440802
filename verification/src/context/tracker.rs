//! Context size tracking: real provider usage as a baseline plus estimates for
//! the messages added after it.
use vstd::prelude::*;
use crate::context::token::{estimate_message, msg_tokens, msgs_tokens, HeuristicTokenCounter};
use crate::strs::cap_usize;
use crate::types::{msgs_view, AgentMessage, AgentMessageV, Usage};

verus! {

/// Tracks context size using real token counts from provider responses,
/// combined with heuristic estimates for the messages added since.
pub struct ContextTracker {
    /// Last known total token count from provider usage (`None` until a response is recorded).
    last_usage_tokens: Option<usize>,
    /// Index of the message that carried that usage (`None` until a response is recorded).
    last_usage_index: Option<usize>,
}

/// The total token count reported in `u`: input, output, cache reads and cache writes.
pub open spec fn usage_total(u: Usage) -> int {
    u.input + u.output + u.cache_read + u.cache_write
}

/// The heuristic estimate of `msgs[from..]`.
pub open spec fn trailing_tokens(msgs: Seq<AgentMessageV>, from: int) -> nat {
    msgs_tokens(&HeuristicTokenCounter, msgs.subrange(from, msgs.len() as int))
}

/// The context size that a tracker in state `st` reports for `msgs`: the recorded
/// usage plus the estimate of the messages after the recorded index, when the
/// index lies within `msgs`; the pure estimate of all of `msgs` otherwise.
pub open spec fn context_estimate(st: (Option<usize>, Option<usize>), msgs: Seq<AgentMessageV>) -> nat {
    match st {
        (Some(t), Some(idx)) if idx < msgs.len() => cap_usize(t as nat + trailing_tokens(msgs, idx + 1)),
        _ => cap_usize(msgs_tokens(&HeuristicTokenCounter, msgs)),
    }
}

impl View for ContextTracker {
    type V = (Option<usize>, Option<usize>);

    closed spec fn view(&self) -> (Option<usize>, Option<usize>) {
        (self.last_usage_tokens, self.last_usage_index)
    }
}

impl ContextTracker {
    /// A tracker with no recorded usage.
    pub fn new() -> (r: Self)
        ensures
            r@ == (None::<usize>, None::<usize>),
    {
        ContextTracker { last_usage_tokens: None, last_usage_index: None }
    }

    /// Record usage from an assistant response found at `message_index`.
    /// A usage whose total is zero leaves the tracker unchanged.
    pub fn record_usage(&mut self, usage: &Usage, message_index: usize)
        requires
            usage_total(*usage) <= u64::MAX,
        ensures
            usage_total(*usage) > 0 ==> final(self)@ == (
                Some((usage_total(*usage) as u64) as usize),
                Some(message_index),
            ),
            usage_total(*usage) == 0 ==> final(self)@ == old(self)@,
            usage.input + usage.output + usage.cache_read + usage.cache_write > 0 ==> final(self)@.0 == Some(
                ((usage.input + usage.output + usage.cache_read + usage.cache_write) as u64) as usize,
            ),
    {
        let total = usage.input + usage.output + usage.cache_read + usage.cache_write;
        if total > 0 {
            self.last_usage_tokens = Some(total as usize);
            self.last_usage_index = Some(message_index);
        }
    }

    /// Estimate the current context size of `messages` (capped at `usize::MAX`).
    pub fn estimate_context_tokens(&self, messages: &Vec<AgentMessage>) -> (n: usize)
        ensures
            n as nat == context_estimate(self@, msgs_view(messages@)),
    {
        match (self.last_usage_tokens, self.last_usage_index) {
            (Some(usage_tokens), Some(idx)) if idx < messages.len() => {
                let ghost mv = msgs_view(messages@);
                let mut trailing: usize = 0;
                let mut i: usize = idx + 1;
                while i < messages.len()
                    invariant
                        idx + 1 <= i <= messages.len(),
                        mv == msgs_view(messages@),
                        trailing as nat == cap_usize(msgs_tokens(&HeuristicTokenCounter, mv.subrange(idx + 1, i as int))),
                    decreases messages.len() - i,
                {
                    let t = estimate_message(&HeuristicTokenCounter, &messages[i]);
                    assert(mv.subrange(idx + 1, i + 1).drop_last() =~= mv.subrange(idx + 1, i as int));
                    assert(mv.subrange(idx + 1, i + 1).last() == messages@[i as int]@);
                    trailing = trailing.saturating_add(t);
                    i = i + 1;
                }
                usage_tokens.saturating_add(trailing)
            },
            _ => crate::context::token::total_tokens(messages),
        }
    }

    /// Forget the recorded usage (e.g. after compaction replaced the messages).
    pub fn reset(&mut self)
        ensures
            final(self)@ == (None::<usize>, None::<usize>),
    {
        self.last_usage_tokens = None;
        self.last_usage_index = None;
    }
}

impl Default for ContextTracker {
    fn default() -> (r: Self)
        ensures
            r@ == (None::<usize>, None::<usize>),
    {
        Self::new()
    }
}

/// After a reset (or before any usage is recorded), the tracker's estimate is the
/// pure heuristic estimate of the whole message list.
pub proof fn law_untracked_estimate_is_total(msgs: Seq<AgentMessageV>)
    ensures
        context_estimate((None, None), msgs) == cap_usize(msgs_tokens(&HeuristicTokenCounter, msgs)),
{
}

/// A recorded usage whose index lies outside the message list is ignored: the
/// estimate falls back to the pure heuristic estimate.
pub proof fn law_stale_index_falls_back(t: usize, idx: usize, msgs: Seq<AgentMessageV>)
    requires
        idx >= msgs.len(),
    ensures
        context_estimate((Some(t), Some(idx)), msgs) == cap_usize(msgs_tokens(&HeuristicTokenCounter, msgs)),
{
}

/// The size a tracker reports after a usage is recorded at message `idx` counts
/// every token of that usage (input, output, cache reads and cache writes) plus the
/// estimate of the messages after `idx`; a usage with nothing in it records nothing.
pub proof fn law_recorded_usage_counts_every_token(u: Usage, idx: usize, msgs: Seq<AgentMessageV>)
    requires
        u.input + u.output + u.cache_read + u.cache_write <= usize::MAX,
        idx < msgs.len(),
    ensures
        usage_total(u) == u.input + u.output + u.cache_read + u.cache_write,
        context_estimate((Some((usage_total(u) as u64) as usize), Some(idx)), msgs) == cap_usize(
            (u.input + u.output + u.cache_read + u.cache_write) as nat + msgs_tokens(
                &HeuristicTokenCounter,
                msgs.subrange(idx + 1, msgs.len() as int),
            ),
        ),
{
}

} // verus!
