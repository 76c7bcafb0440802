//! Turn ranges, compacted sections and the map from turns to message ranges.
use vstd::prelude::*;
use crate::types::{msgs_view, AgentMessage, AgentMessageV};

verus! {

/// A range of turns within a loop; both bounds are inclusive turn positions in the
/// loop's `TurnMap`. When the loop's messages carry turn ids numbered from 0 without
/// gaps, a position is the `TurnId.turn_index` of its turn
/// (`law_numbered_turns_are_positions`); a message without a turn id takes a position
/// of its own.
#[derive(PartialEq, Eq, Structural, Clone, Copy, Debug)]
pub struct TurnRange {
    pub start_turn: u32,
    pub end_turn: u32,
}

/// A range of turns plus the compacted replacement messages for that range.
pub struct CompactedSection {
    /// The turn range this section replaces.
    pub range: TurnRange,
    /// Replacement messages loaded into context instead of the originals.
    pub messages: Vec<AgentMessage>,
}

/// Maps turn indices to message index ranges within a message array.
pub struct TurnMap {
    /// Indexed by turn position; each entry is `(start_msg_idx, end_msg_idx)`, inclusive.
    entries: Vec<(usize, usize)>,
}

/// The turn index carried by a message, if any.
pub open spec fn turn_index_v(m: AgentMessageV) -> Option<u32> {
    match m {
        AgentMessageV::Llm(lm) => match lm.turn_id {
            Some(t) => Some(t.turn_index),
            None => None,
        },
        _ => None,
    }
}

/// Scanning `msgs` left to right: the groups found so far (inclusive index pairs)
/// and the turn index of the group still open, if it carries one.
/// A message joins the open group when it carries the same turn index;
/// otherwise it starts a new group, and a message without a turn id is a group of its own.
pub open spec fn turn_scan(msgs: Seq<AgentMessageV>) -> (Seq<(usize, usize)>, Option<u32>)
    decreases msgs.len(),
{
    if msgs.len() == 0 {
        (seq![], None)
    } else {
        let st = turn_scan(msgs.drop_last());
        let i = (msgs.len() - 1) as usize;
        match (turn_index_v(msgs.last()), st.1) {
            (Some(idx), Some(cur)) => if idx == cur && st.0.len() > 0 {
                (st.0.update(st.0.len() - 1, (st.0.last().0, i)), st.1)
            } else {
                (st.0.push((i, i)), Some(idx))
            },
            (Some(idx), None) => (st.0.push((i, i)), Some(idx)),
            (None, _) => (st.0.push((i, i)), None),
        }
    }
}

/// The groups tile `[0, n)`: they are non-empty, consecutive and in order.
pub open spec fn tiles(e: Seq<(usize, usize)>, n: nat) -> bool {
    &&& (n == 0) == (e.len() == 0)
    &&& e.len() > 0 ==> e[0].0 == 0 && e.last().1 + 1 == n
    &&& forall|k: int| 0 <= k < e.len() ==> (#[trigger] e[k]).0 <= e[k].1
    &&& forall|k: int| 0 <= k < e.len() - 1 ==> (#[trigger] e[k]).1 + 1 == e[k + 1].0
}

/// The items of `all` that the turns `range` of the grouping `e` cover:
/// empty when either bound is not a turn.
pub open spec fn group_msgs<T>(e: Seq<(usize, usize)>, range: TurnRange, all: Seq<T>) -> Seq<T> {
    if range.start_turn as int >= e.len() || range.end_turn as int >= e.len() {
        seq![]
    } else {
        all.subrange(e[range.start_turn as int].0 as int, e[range.end_turn as int].1 + 1)
    }
}

impl View for TurnMap {
    type V = Seq<(usize, usize)>;

    closed spec fn view(&self) -> Seq<(usize, usize)> {
        self.entries@
    }
}

proof fn lemma_turn_scan_tiles(msgs: Seq<AgentMessageV>)
    requires
        msgs.len() <= usize::MAX,
    ensures
        tiles(turn_scan(msgs).0, msgs.len()),
        turn_scan(msgs).1 is Some ==> turn_scan(msgs).0.len() > 0,
    decreases msgs.len(),
{
    if msgs.len() > 0 {
        lemma_turn_scan_tiles(msgs.drop_last());
    }
}

impl TurnMap {
    /// Build from messages by grouping consecutive messages with the same turn index.
    /// Messages without a turn id are treated as their own single-message group.
    pub fn from_messages(messages: &[AgentMessage]) -> (r: Self)
        ensures
            r@ == turn_scan(msgs_view(messages@)).0,
            tiles(r@, messages@.len()),
    {
        let ghost mv = msgs_view(messages@);
        let mut entries: Vec<(usize, usize)> = Vec::new();
        let mut current_turn: Option<u32> = None;
        let mut i: usize = 0;
        while i < messages.len()
            invariant
                0 <= i <= messages@.len(),
                mv == msgs_view(messages@),
                entries@ == turn_scan(mv.take(i as int)).0,
                current_turn == turn_scan(mv.take(i as int)).1,
            decreases messages@.len() - i,
        {
            assert(mv.take(i + 1).drop_last() =~= mv.take(i as int));
            assert(mv.take(i + 1).last() == messages@[i as int]@);
            let turn_idx = messages[i].turn_index();
            proof {
                lemma_turn_scan_tiles(mv.take(i as int));
            }
            match (turn_idx, current_turn) {
                (Some(idx), Some(cur)) => {
                    if idx == cur && entries.len() > 0 {
                        let n = entries.len();
                        let first = entries[n - 1].0;
                        entries.set(n - 1, (first, i));
                    } else {
                        entries.push((i, i));
                        current_turn = Some(idx);
                    }
                },
                (Some(idx), None) => {
                    entries.push((i, i));
                    current_turn = Some(idx);
                },
                (None, _) => {
                    entries.push((i, i));
                    current_turn = None;
                },
            }
            i = i + 1;
        }
        assert(mv.take(messages@.len() as int) =~= mv);
        proof {
            lemma_turn_scan_tiles(mv);
        }
        TurnMap { entries }
    }

    /// Number of turn groups (as a `u32`).
    pub fn turn_count(&self) -> (n: u32)
        ensures
            n == self@.len() as u32,
    {
        self.entries.len() as u32
    }

    /// Message index range `(start, end)` inclusive for a single turn, if it exists.
    pub fn turn_msg_range(&self, turn_index: u32) -> (r: Option<(usize, usize)>)
        ensures
            r == if (turn_index as int) < self@.len() { Some(self@[turn_index as int]) } else { None },
    {
        if (turn_index as usize) < self.entries.len() {
            Some(self.entries[turn_index as usize])
        } else {
            None
        }
    }

    /// The messages that a turn range covers: empty when either bound is not a turn.
    pub open spec fn range_msgs(self, range: TurnRange, all: Seq<AgentMessage>) -> Seq<AgentMessage> {
        group_msgs(self@, range, all)
    }

    /// Slice of messages belonging to a `TurnRange` (empty when a bound is not a turn).
    /// The map must have been built from `all_msgs`, and the range must not run backwards
    /// by more than one turn.
    pub fn messages_for_range<'a>(&self, range: &TurnRange, all_msgs: &'a [AgentMessage]) -> (r: &'a [AgentMessage])
        requires
            tiles(self@, all_msgs@.len()),
            range.start_turn <= range.end_turn + 1,
        ensures
            r@ == self.range_msgs(*range, all_msgs@),
            (range.start_turn as int) < self@.len() && (range.end_turn as int) < self@.len() ==> self@[range.start_turn as int].0
                <= self@[range.end_turn as int].1 + 1 <= all_msgs@.len(),
    {
        let n = self.entries.len();
        let total = all_msgs.len();
        if range.start_turn as usize >= n || range.end_turn as usize >= n {
            return &all_msgs[0..0];
        }
        let start = self.entries[range.start_turn as usize].0;
        let end = self.entries[range.end_turn as usize].1;
        proof {
            let e = self@;
            let s = range.start_turn as int;
            let t = range.end_turn as int;
            lemma_tiles_bound(e, all_msgs@.len(), t);
            if s == t + 1 {
                assert(e[t].1 + 1 == e[s].0);
            } else {
                lemma_tiles_monotone(e, all_msgs@.len(), s, t);
            }
        }
        assert(end < total);
        &all_msgs[start..end + 1]
    }
}

proof fn lemma_tiles_bound(e: Seq<(usize, usize)>, n: nat, k: int)
    requires
        tiles(e, n),
        0 <= k < e.len(),
    ensures
        e[k].1 < n,
    decreases e.len() - k,
{
    if k < e.len() - 1 {
        lemma_tiles_bound(e, n, k + 1);
        assert(e[k].1 + 1 == e[k + 1].0);
    }
}

proof fn lemma_tiles_monotone(e: Seq<(usize, usize)>, n: nat, s: int, t: int)
    requires
        tiles(e, n),
        0 <= s <= t < e.len(),
    ensures
        e[s].0 <= e[t].1,
    decreases t - s,
{
    if s < t {
        lemma_tiles_monotone(e, n, s + 1, t);
        assert(e[s].1 + 1 == e[s + 1].0);
    }
}

/// Viewing the covered messages is covering the viewed messages.
pub proof fn lemma_group_msgs_view(e: Seq<(usize, usize)>, range: TurnRange, all: Seq<AgentMessage>)
    requires
        (range.start_turn as int) < e.len() && (range.end_turn as int) < e.len() ==> e[range.start_turn as int].0
            <= e[range.end_turn as int].1 + 1 <= all.len(),
    ensures
        msgs_view(group_msgs(e, range, all)) == group_msgs(e, range, msgs_view(all)),
{
    if range.start_turn as int >= e.len() || range.end_turn as int >= e.len() {
        assert(msgs_view(Seq::<AgentMessage>::empty()) =~= Seq::<AgentMessageV>::empty());
    } else {
        let a = e[range.start_turn as int].0 as int;
        let b = e[range.end_turn as int].1 + 1;
        assert(msgs_view(all.subrange(a, b)) =~= msgs_view(all).subrange(a, b));
    }
}

/// The open turn index of a scan is the last message's own.
proof fn lemma_scan_open_index(msgs: Seq<AgentMessageV>)
    requires
        msgs.len() > 0,
    ensures
        turn_scan(msgs).1 == turn_index_v(msgs.last()),
{
}

/// A message joins the group of the message before it exactly when both carry
/// the same turn index; otherwise it starts a group of its own.
pub proof fn law_neighbours_share_group(msgs: Seq<AgentMessageV>, m: AgentMessageV)
    requires
        msgs.len() > 0,
        msgs.len() < usize::MAX,
    ensures
        ({
            let e = turn_scan(msgs).0;
            let e2 = turn_scan(msgs.push(m)).0;
            let i = msgs.len() as usize;
            &&& (turn_index_v(m) is Some && turn_index_v(m) == turn_index_v(msgs.last()))
                ==> e2 == e.update(e.len() - 1, (e.last().0, i))
            &&& !(turn_index_v(m) is Some && turn_index_v(m) == turn_index_v(msgs.last()))
                ==> e2 == e.push((i, i))
        }),
{
    lemma_scan_open_index(msgs);
    lemma_turn_scan_tiles(msgs);
    let all = msgs.push(m);
    assert(all.drop_last() =~= msgs);
    assert(all.last() == m);
}

/// The message carries turn index `p`.
pub open spec fn has_turn(m: AgentMessageV, p: int) -> bool {
    turn_index_v(m) matches Some(x) && x as int == p
}

/// The open turn of a scan is turn `p`.
pub open spec fn open_turn_is(open: Option<u32>, p: int) -> bool {
    open matches Some(x) && x as int == p
}

/// Every message carries a turn id, the first is turn 0, and each message is in the
/// turn of the one before it or in the next one.
pub open spec fn numbered_turns(msgs: Seq<AgentMessageV>) -> bool {
    &&& forall|i: int| 0 <= i < msgs.len() ==> (#[trigger] turn_index_v(msgs[i])) is Some
    &&& msgs.len() > 0 ==> turn_index_v(msgs[0]) == Some(0u32)
    &&& forall|i: int|
        0 < i < msgs.len() ==> {
            let a = turn_index_v(msgs[i - 1])->0 as int;
            let b = (#[trigger] turn_index_v(msgs[i]))->0 as int;
            b == a || b == a + 1
        }
}

/// Every message of group `p` carries turn index `p`.
#[verifier::opaque]
pub open spec fn groups_match_turns(msgs: Seq<AgentMessageV>, e: Seq<(usize, usize)>) -> bool {
    forall|p: int, j: int|
        #![trigger e[p], msgs[j]]
        0 <= p < e.len() && e[p].0 <= j <= e[p].1 ==> has_turn(msgs[j], p)
}

proof fn lemma_tiles_all_bound(e: Seq<(usize, usize)>, n: nat)
    requires
        tiles(e, n),
    ensures
        forall|p: int| 0 <= p < e.len() ==> (#[trigger] e[p]).1 < n,
{
    assert forall|p: int| 0 <= p < e.len() implies (#[trigger] e[p]).1 < n by {
        lemma_tiles_bound(e, n, p);
    }
}

proof fn lemma_numbered_prefix(msgs: Seq<AgentMessageV>)
    requires
        msgs.len() > 0,
        numbered_turns(msgs),
    ensures
        numbered_turns(msgs.drop_last()),
{
    let pre = msgs.drop_last();
    assert forall|i: int| 0 <= i < pre.len() implies (#[trigger] turn_index_v(pre[i])) is Some by {
        assert(pre[i] == msgs[i]);
    }
    assert forall|i: int| 0 < i < pre.len() implies {
        let a = turn_index_v(pre[i - 1])->0 as int;
        let b = (#[trigger] turn_index_v(pre[i]))->0 as int;
        b == a || b == a + 1
    } by {
        assert(pre[i] == msgs[i]);
        assert(pre[i - 1] == msgs[i - 1]);
        assert(turn_index_v(msgs[i]) is Some);
    }
}

proof fn lemma_groups_extend_same(pre: Seq<AgentMessageV>, m: AgentMessageV, e0: Seq<(usize, usize)>)
    requires
        pre.len() > 0,
        pre.len() < usize::MAX,
        groups_match_turns(pre, e0),
        e0.len() > 0,
        e0.last().1 + 1 == pre.len(),
        forall|p: int| 0 <= p < e0.len() ==> (#[trigger] e0[p]).1 < pre.len(),
        has_turn(m, e0.len() - 1),
    ensures
        groups_match_turns(pre.push(m), e0.update(e0.len() - 1, (e0.last().0, pre.len() as usize))),
{
    reveal(groups_match_turns);
    let msgs = pre.push(m);
    let e = e0.update(e0.len() - 1, (e0.last().0, pre.len() as usize));
    let i = pre.len() as int;
    let k = e0.len() - 1;
    assert forall|p: int, j: int|
        #![trigger e[p], msgs[j]]
        0 <= p < e.len() && e[p].0 <= j <= e[p].1 implies has_turn(msgs[j], p) by {
        if j < i {
            assert(msgs[j] == pre[j]);
            assert(e0[p].0 == e[p].0);
            assert(j <= e0[p].1);
            assert(has_turn(pre[j], p));
        } else {
            assert(msgs[j] == m);
        }
    }
}

proof fn lemma_groups_extend_next(pre: Seq<AgentMessageV>, m: AgentMessageV, e0: Seq<(usize, usize)>)
    requires
        pre.len() < usize::MAX,
        groups_match_turns(pre, e0),
        e0.len() > 0,
        forall|p: int| 0 <= p < e0.len() ==> (#[trigger] e0[p]).1 < pre.len(),
        has_turn(m, e0.len() as int),
    ensures
        groups_match_turns(pre.push(m), e0.push((pre.len() as usize, pre.len() as usize))),
{
    reveal(groups_match_turns);
    let msgs = pre.push(m);
    let e = e0.push((pre.len() as usize, pre.len() as usize));
    let i = pre.len() as int;
    assert forall|p: int, j: int|
        #![trigger e[p], msgs[j]]
        0 <= p < e.len() && e[p].0 <= j <= e[p].1 implies has_turn(msgs[j], p) by {
        if p < e0.len() {
            assert(e[p] == e0[p]);
            assert(msgs[j] == pre[j]);
            assert(has_turn(pre[j], p));
        } else {
            assert(msgs[j] == m);
        }
    }
}

#[verifier::spinoff_prover]
#[verifier::rlimit(60)]
proof fn lemma_numbered_step(pre: Seq<AgentMessageV>, m: AgentMessageV)
    requires
        pre.len() > 0,
        pre.len() < usize::MAX,
        groups_match_turns(pre, turn_scan(pre).0),
        open_turn_is(turn_scan(pre).1, turn_scan(pre).0.len() - 1),
        turn_index_v(m) is Some,
        turn_index_v(m)->0 == turn_index_v(pre.last())->0 || turn_index_v(m)->0 == turn_index_v(pre.last())->0 + 1,
    ensures
        groups_match_turns(pre.push(m), turn_scan(pre.push(m)).0),
        open_turn_is(turn_scan(pre.push(m)).1, turn_scan(pre.push(m)).0.len() - 1),
{
    let e0 = turn_scan(pre).0;
    lemma_turn_scan_tiles(pre);
    lemma_scan_open_index(pre);
    lemma_scan_open_index(pre.push(m));
    law_neighbours_share_group(pre, m);
    lemma_tiles_all_bound(e0, pre.len());
    let e2 = turn_scan(pre.push(m)).0;
    assert(pre.push(m).last() == m);
    assert(turn_scan(pre.push(m)).1 == turn_index_v(m));
    if turn_index_v(m) == turn_index_v(pre.last()) {
        assert(e2 == e0.update(e0.len() - 1, (e0.last().0, pre.len() as usize)));
        lemma_groups_extend_same(pre, m, e0);
    } else {
        assert(e2 == e0.push((pre.len() as usize, pre.len() as usize)));
        lemma_groups_extend_next(pre, m, e0);
    }
}

proof fn lemma_numbered_groups(msgs: Seq<AgentMessageV>)
    requires
        msgs.len() <= usize::MAX,
        numbered_turns(msgs),
    ensures
        groups_match_turns(msgs, turn_scan(msgs).0),
        msgs.len() > 0 ==> open_turn_is(turn_scan(msgs).1, turn_scan(msgs).0.len() - 1),
    decreases msgs.len(),
{
    if msgs.len() == 0 {
        reveal(groups_match_turns);
    } else {
        let pre = msgs.drop_last();
        let m = msgs.last();
        let i = msgs.len() - 1;
        lemma_numbered_prefix(msgs);
        lemma_numbered_groups(pre);
        assert(pre.push(m) =~= msgs);
        assert(msgs[i] == m);
        assert(turn_index_v(msgs[i]) is Some);
        if pre.len() == 0 {
            reveal(groups_match_turns);
            let e = turn_scan(msgs).0;
            assert(e =~= seq![(0usize, 0usize)]);
            assert forall|p: int, j: int|
                #![trigger e[p], msgs[j]]
                0 <= p < e.len() && e[p].0 <= j <= e[p].1 implies has_turn(msgs[j], p) by {
            }
        } else {
            assert(msgs[i - 1] == pre.last());
            lemma_numbered_step(pre, m);
        }
    }
}

/// When the messages carry turn ids numbered from 0 without gaps, the turn groups are
/// exactly the turns: group `p` holds the messages of turn index `p`, so a turn range
/// read by position names the same turns as one read by turn index.
pub proof fn law_numbered_turns_are_positions(msgs: Seq<AgentMessageV>)
    requires
        msgs.len() <= usize::MAX,
        numbered_turns(msgs),
    ensures
        ({
            let e = turn_scan(msgs).0;
            forall|p: int, j: int|
                #![trigger e[p], msgs[j]]
                0 <= p < e.len() && e[p].0 <= j <= e[p].1 ==> has_turn(msgs[j], p)
        }),
{
    lemma_numbered_groups(msgs);
    reveal(groups_match_turns);
}

/// The turn groups of a message list tile it: every message belongs to exactly one
/// group, groups are non-empty and consecutive, and the first starts at message 0.
pub proof fn law_turn_groups_tile_messages(msgs: Seq<AgentMessageV>)
    requires
        msgs.len() <= usize::MAX,
    ensures
        tiles(turn_scan(msgs).0, msgs.len()),
{
    lemma_turn_scan_tiles(msgs);
}

/// Messages `i` and `j` lie in one group of `e`.
pub open spec fn same_group(e: Seq<(usize, usize)>, i: int, j: int) -> bool {
    exists|p: int| 0 <= p < e.len() && (#[trigger] e[p]).0 <= i && j <= e[p].1
}

/// Both messages carry a turn id, with the same turn index.
pub open spec fn shares_turn(a: AgentMessageV, b: AgentMessageV) -> bool {
    turn_index_v(a) is Some && turn_index_v(a) == turn_index_v(b)
}

/// Adjacent messages lie in one group of `e` exactly when they share a turn.
pub open spec fn adjacency_matches(msgs: Seq<AgentMessageV>, e: Seq<(usize, usize)>) -> bool {
    forall|i: int, j: int|
        #![trigger same_group(e, i, j)]
        #![trigger shares_turn(msgs[i], msgs[j])]
        0 <= i && j == i + 1 && j < msgs.len() ==> (same_group(e, i, j) <==> shares_turn(msgs[i], msgs[j]))
}

proof fn lemma_adjacency_extend(
    pre: Seq<AgentMessageV>,
    m: AgentMessageV,
    e0: Seq<(usize, usize)>,
    e2: Seq<(usize, usize)>,
)
    requires
        pre.len() > 0,
        pre.len() < usize::MAX,
        adjacency_matches(pre, e0),
        e0.len() > 0,
        e0.last().0 <= e0.last().1,
        e0.last().1 + 1 == pre.len(),
        forall|p: int| 0 <= p < e0.len() ==> (#[trigger] e0[p]).1 < pre.len(),
        shares_turn(pre.last(), m) ==> e2 == e0.update(e0.len() - 1, (e0.last().0, pre.len() as usize)),
        !shares_turn(pre.last(), m) ==> e2 == e0.push((pre.len() as usize, pre.len() as usize)),
    ensures
        adjacency_matches(pre.push(m), e2),
{
    let msgs = pre.push(m);
    let n0 = pre.len() as int;
    let k = e0.len() - 1;
    assert forall|i: int, j: int|
        #![trigger same_group(e2, i, j)]
        #![trigger shares_turn(msgs[i], msgs[j])]
        0 <= i && j == i + 1 && j < msgs.len() implies (same_group(e2, i, j) <==> shares_turn(msgs[i], msgs[j])) by {
        assert(msgs[i] == if i < n0 { pre[i] } else { m });
        if j < n0 {
            assert(msgs[i] == pre[i] && msgs[j] == pre[j]);
            assert(same_group(e0, i, j) <==> shares_turn(pre[i], pre[j]));
            if same_group(e2, i, j) {
                let p = choose|p: int| 0 <= p < e2.len() && (#[trigger] e2[p]).0 <= i && j <= e2[p].1;
                if p < k || (p == k && !shares_turn(pre.last(), m)) {
                    assert(e0[p] == e2[p]);
                } else if p == k {
                    assert(e0[k].0 <= i && j <= e0[k].1);
                } else {
                    assert(e2[p] == (n0 as usize, n0 as usize));
                }
                assert(same_group(e0, i, j));
            }
            if same_group(e0, i, j) {
                let p = choose|p: int| 0 <= p < e0.len() && (#[trigger] e0[p]).0 <= i && j <= e0[p].1;
                if p < k || !shares_turn(pre.last(), m) {
                    assert(e0[p] == e2[p]);
                } else {
                    assert(e2[k].0 <= i && j <= e2[k].1);
                }
                assert(same_group(e2, i, j));
            }
        } else {
            assert(i == n0 - 1);
            assert(msgs[i] == pre.last());
            assert(msgs[j] == m);
            if shares_turn(pre.last(), m) {
                assert(e2[k].0 <= i && j <= e2[k].1);
                assert(same_group(e2, i, j));
            } else {
                if same_group(e2, i, j) {
                    let p = choose|p: int| 0 <= p < e2.len() && (#[trigger] e2[p]).0 <= i && j <= e2[p].1;
                    if p < e0.len() {
                        assert(e2[p] == e0[p]);
                    } else {
                        assert(e2[p] == (n0 as usize, n0 as usize));
                    }
                }
            }
        }
    }
}

proof fn lemma_adjacency(msgs: Seq<AgentMessageV>)
    requires
        msgs.len() <= usize::MAX,
    ensures
        adjacency_matches(msgs, turn_scan(msgs).0),
    decreases msgs.len(),
{
    if msgs.len() <= 1 {
        let e = turn_scan(msgs).0;
        assert forall|i: int, j: int|
            #![trigger same_group(e, i, j)]
            #![trigger shares_turn(msgs[i], msgs[j])]
            0 <= i && j == i + 1 && j < msgs.len() implies (same_group(e, i, j) <==> shares_turn(msgs[i], msgs[j])) by {
        }
    } else {
        let pre = msgs.drop_last();
        let m = msgs.last();
        lemma_adjacency(pre);
        lemma_turn_scan_tiles(pre);
        let e0 = turn_scan(pre).0;
        lemma_tiles_all_bound(e0, pre.len());
        law_neighbours_share_group(pre, m);
        assert(pre.push(m) =~= msgs);
        lemma_adjacency_extend(pre, m, e0, turn_scan(msgs).0);
    }
}

/// Two neighbouring messages lie in one turn group exactly when both carry a turn
/// id with the same turn index.
pub proof fn law_adjacent_messages_group_by_turn(msgs: Seq<AgentMessageV>)
    requires
        msgs.len() <= usize::MAX,
    ensures
        forall|i: int|
            0 <= i && i + 1 < msgs.len() ==> (same_group(turn_scan(msgs).0, i, i + 1) <==> shares_turn(
                #[trigger] msgs[i],
                msgs[i + 1],
            )),
{
    lemma_adjacency(msgs);
    let e = turn_scan(msgs).0;
    assert forall|i: int| 0 <= i && i + 1 < msgs.len() implies (same_group(e, i, i + 1) <==> shares_turn(
        #[trigger] msgs[i],
        msgs[i + 1],
    )) by {
        assert(same_group(e, i, i + 1) <==> shares_turn(msgs[i], msgs[i + 1]));
    }
}

} // verus!
