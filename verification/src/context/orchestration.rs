//! Context loading across the loops of a session: how many earlier loops a
//! compaction scope covers, and the context built from their compaction
//! blocks or raw messages.
use vstd::prelude::*;
use crate::strs::cap_usize;
use crate::types::{msgs_view, AgentMessage, AgentMessageV};
use crate::context::token::{estimate_messages, msgs_tokens, TokenCounter};
use crate::context::compaction::{turn_scan, CompactedSection, TurnMap, TurnRange};
use crate::context::strategy::{BlockCompactionParams, CompactionBlock, CompactionScope, BlockCompactionStrategy};
use crate::session::model::{chain_back, find_loop, LoopRecord, LoopRecordV, Session, SessionV};
use crate::session::recorder::{lemma_same_loop_ids_find, same_loop_ids};

verus! {

broadcast use vstd::string::group_string_axioms;

/// The earlier loops of a chain (all but its last), newest first.
pub open spec fn earlier_back(chain: Seq<Seq<char>>) -> Seq<Seq<char>> {
    if chain.len() == 0 { seq![] } else { chain.drop_last().reverse() }
}

/// Walking `ids`, how many loops fit in `budget` tokens on top of `count`:
/// ids that name no loop are passed over; the walk stops at the first loop
/// that does not fit.
pub open spec fn scope_walk<C: TokenCounter>(c: &C, ls: Seq<LoopRecordV>, ids: Seq<Seq<char>>, budget: nat, count: nat) -> nat
    decreases ids.len(),
{
    if ids.len() == 0 {
        count
    } else {
        match find_loop(ls, ids[0]) {
            Some(i) => {
                let t = cap_usize(msgs_tokens(c, ls[i].messages));
                if t > budget {
                    count
                } else {
                    scope_walk(c, ls, ids.drop_first(), (budget - t) as nat, count + 1)
                }
            },
            None => scope_walk(c, ls, ids.drop_first(), budget, count),
        }
    }
}

/// How many earlier loops of `chain` a scope covers.
pub open spec fn scope_count<C: TokenCounter>(c: &C, ls: Seq<LoopRecordV>, chain: Seq<Seq<char>>, scope: CompactionScope, max: nat) -> nat {
    match scope {
        CompactionScope::FixedCount(n) => n as nat,
        CompactionScope::TokenBudget => scope_walk(c, ls, earlier_back(chain), max, 0),
    }
}

proof fn lemma_walk_bound<C: TokenCounter>(c: &C, ls: Seq<LoopRecordV>, ids: Seq<Seq<char>>, budget: nat, count: nat)
    ensures
        count <= scope_walk(c, ls, ids, budget, count) <= count + ids.len(),
    decreases ids.len(),
{
    if ids.len() > 0 {
        match find_loop(ls, ids[0]) {
            Some(i) => {
                let t = cap_usize(msgs_tokens(c, ls[i].messages));
                if t <= budget {
                    lemma_walk_bound(c, ls, ids.drop_first(), (budget - t) as nat, count + 1);
                }
            },
            None => lemma_walk_bound(c, ls, ids.drop_first(), budget, count),
        }
    }
}

/// How many earlier loops of `chain` (ids of this session's loops, oldest
/// first, the current one last) a scope covers: a fixed number, or, under a
/// token budget, the earlier loops newest first while their raw messages fit.
pub fn resolve_scope<C: TokenCounter>(
    session: &Session,
    chain: &Vec<String>,
    scope: CompactionScope,
    max_context_tokens: usize,
    counter: &C,
) -> (n: usize)
    ensures
        n == scope_count(counter, session@.loops, crate::types::strs_view(chain@), scope, max_context_tokens as nat),
{
    match scope {
        CompactionScope::FixedCount(n) => n,
        CompactionScope::TokenBudget => {
            let ghost ls = session@.loops;
            let ghost back = earlier_back(crate::types::strs_view(chain@));
            let ghost cv = crate::types::strs_view(chain@);
            if chain.len() == 0 {
                return 0;
            }
            let mut budget = max_context_tokens;
            let mut count: usize = 0;
            let mut k: usize = chain.len() - 1;
            proof {
                assert(back.skip(0) =~= back);
            }
            while k > 0
                invariant
                    0 <= k < chain.len(),
                    scope == CompactionScope::TokenBudget,
                    cv == crate::types::strs_view(chain@),
                    back == cv.drop_last().reverse(),
                    ls == session@.loops,
                    count + k == chain.len() - 1 - (chain.len() - 1 - k) + count,
                    count <= chain.len() - 1 - k,
                    scope_walk(counter, ls, back, max_context_tokens as nat, 0)
                        == scope_walk(counter, ls, back.skip(chain.len() - 1 - k), budget as nat, count as nat),
                decreases k,
            {
                let ghost m = chain.len() - 1 - k;
                assert(back.skip(m)[0] == cv[k - 1]);
                assert(back.skip(m).drop_first() =~= back.skip(m + 1));
                match session.get_loop(chain[k - 1].as_str()) {
                    Some(record) => {
                        let t = estimate_messages(counter, &record.messages);
                        proof {
                            assert(chain@[k - 1]@ == cv[k - 1]);
                            let i = find_loop(ls, cv[k - 1])->0;
                            assert(ls[i] == record@);
                            assert(t == cap_usize(msgs_tokens(counter, ls[i].messages)));
                        }
                        if t > budget {
                            proof {
                                let i = find_loop(ls, cv[k - 1])->0;
                                assert(back.skip(m).len() > 0);
                                assert(find_loop(ls, back.skip(m)[0]) == Some(i));
                                assert(scope_walk(counter, ls, back.skip(m), budget as nat, count as nat) == count as nat);
                            }
                            return count;
                        }
                        budget = budget - t;
                        count = count + 1;
                    },
                    None => {
                        assert(chain@[k - 1]@ == cv[k - 1]);
                    },
                }
                k = k - 1;
            }
            assert(back.skip(chain.len() - 1) =~= seq![]);
            count
        },
    }
}

/// The messages of the turns `range` covers (none when a bound is not a turn).
pub open spec fn first_turns(range: TurnRange, mv: Seq<AgentMessageV>) -> Seq<AgentMessageV> {
    let e = turn_scan(mv).0;
    if range.start_turn as int >= e.len() || range.end_turn as int >= e.len() {
        seq![]
    } else {
        mv.subrange(e[range.start_turn as int].0 as int, e[range.end_turn as int].1 + 1)
    }
}

pub open spec fn section_msgs(s: Option<CompactedSection>) -> Seq<AgentMessageV> {
    match s {
        Some(x) => msgs_view(x.messages@),
        None => seq![],
    }
}

/// What a loop contributes to the context: with a compaction block, its head,
/// summary and tail for the most recent loop and only its summary for an
/// older one; without, its raw messages.
pub open spec fn loop_context(r: LoopRecordV, recent: bool) -> Seq<AgentMessageV> {
    match r.compaction_block {
        Some(b) => if recent {
            (match b.keep_first {
                Some(rg) => first_turns(rg, r.messages),
                None => seq![],
            }) + section_msgs(b.keep_compacted) + section_msgs(b.keep_recent)
        } else {
            section_msgs(b.keep_compacted)
        },
        None => r.messages,
    }
}

/// The context of the loops `chain[from..to]`, skipping ids that name no loop.
pub open spec fn chain_context(ls: Seq<LoopRecordV>, chain: Seq<Seq<char>>, from: int, to: int) -> Seq<AgentMessageV>
    decreases to - from,
{
    if to <= from {
        seq![]
    } else {
        chain_context(ls, chain, from, to - 1) + match find_loop(ls, chain[to - 1]) {
            Some(j) => loop_context(ls[j], to - 1 == chain.len() - 1),
            None => seq![],
        }
    }
}

/// The chain of loop ids from the root to `id`.
pub open spec fn chain_to(ls: Seq<LoopRecordV>, id: Seq<char>) -> Seq<Seq<char>> {
    chain_back(ls, id, ls.len() + 1)->0.reverse()
}

/// The context for loop `id`: the loops of its chain within the scope.
pub open spec fn session_context<C: TokenCounter>(c: &C, ls: Seq<LoopRecordV>, id: Seq<char>, scope: CompactionScope, max: nat) -> Seq<AgentMessageV> {
    let chain = chain_to(ls, id);
    let k = scope_count(c, ls, chain, scope, max);
    let start = if chain.len() >= k + 1 { chain.len() - (k + 1) } else { 0 };
    chain_context(ls, chain, start, chain.len() as int)
}

/// The kept turn range of a loop's block does not run backwards.
pub open spec fn head_range_ordered(r: LoopRecordV) -> bool {
    match r.compaction_block {
        Some(b) => match b.keep_first {
            Some(rg) => rg.start_turn <= rg.end_turn + 1,
            None => true,
        },
        None => true,
    }
}

fn push_clones(out: &mut Vec<AgentMessage>, src: &[AgentMessage])
    ensures
        msgs_view(final(out)@) == msgs_view(old(out)@) + msgs_view(src@),
{
    let ghost o0 = msgs_view(out@);
    let mut i: usize = 0;
    while i < src.len()
        invariant
            0 <= i <= src.len(),
            msgs_view(out@) == o0 + msgs_view(src@).take(i as int),
        decreases src.len() - i,
    {
        let ghost before = msgs_view(out@);
        out.push(src[i].clone());
        assert(msgs_view(out@) =~= before.push(src@[i as int]@));
        assert(msgs_view(src@).take(i + 1) =~= msgs_view(src@).take(i as int).push(src@[i as int]@));
        i = i + 1;
    }
    assert(msgs_view(src@).take(src.len() as int) =~= msgs_view(src@));
}

fn push_section(out: &mut Vec<AgentMessage>, s: &Option<CompactedSection>)
    ensures
        msgs_view(final(out)@) == msgs_view(old(out)@) + section_msgs(*s),
{
    match s {
        Some(x) => push_clones(out, x.messages.as_slice()),
        None => {
            assert(msgs_view(out@) + Seq::<AgentMessageV>::empty() =~= msgs_view(out@));
        },
    }
}

proof fn lemma_chain_starts_with(ls: Seq<LoopRecordV>, id: Seq<char>, fuel: nat)
    requires
        chain_back(ls, id, fuel) is Some,
    ensures
        chain_back(ls, id, fuel)->0.len() > 0,
        chain_back(ls, id, fuel)->0[0] == id,
{
}

proof fn lemma_view_subrange(v: Seq<AgentMessage>, a: int, b: int)
    requires
        0 <= a <= b <= v.len(),
    ensures
        msgs_view(v.subrange(a, b)) == msgs_view(v).subrange(a, b),
{
    assert(msgs_view(v.subrange(a, b)) =~= msgs_view(v).subrange(a, b));
}

fn push_head(context: &mut Vec<AgentMessage>, keep_first: &Option<TurnRange>, messages: &Vec<AgentMessage>)
    requires
        match keep_first {
            Some(rg) => rg.start_turn <= rg.end_turn + 1,
            None => true,
        },
    ensures
        msgs_view(final(context)@) == msgs_view(old(context)@) + match keep_first {
            Some(rg) => first_turns(*rg, msgs_view(messages@)),
            None => seq![],
        },
{
    match keep_first {
        Some(range) => {
            let turn_map = TurnMap::from_messages(messages.as_slice());
            let msgs = turn_map.messages_for_range(range, messages.as_slice());
            proof {
                let mv = msgs_view(messages@);
                let e = turn_scan(mv).0;
                assert(turn_map@ == e);
                if !(range.start_turn as int >= e.len() || range.end_turn as int >= e.len()) {
                    let a = e[range.start_turn as int].0 as int;
                    let b = e[range.end_turn as int].1 + 1;
                    assert(msgs@ == messages@.subrange(a, b));
                    lemma_view_subrange(messages@, a, b);
                } else {
                    assert(msgs@ =~= Seq::<AgentMessage>::empty());
                }
            }
            push_clones(context, msgs);
        },
        None => {
            assert(msgs_view(context@) + Seq::<AgentMessageV>::empty() =~= msgs_view(context@));
        },
    }
}

fn push_loop_context(context: &mut Vec<AgentMessage>, record: &crate::session::model::LoopRecord, recent: bool)
    requires
        recent ==> head_range_ordered(record@),
    ensures
        msgs_view(final(context)@) == msgs_view(old(context)@) + loop_context(record@, recent),
{
    let ghost before = msgs_view(context@);
    match &record.compaction_block {
        Some(block) => {
            if recent {
                push_head(context, &block.keep_first, &record.messages);
                push_section(context, &block.keep_compacted);
                push_section(context, &block.keep_recent);
            } else {
                push_section(context, &block.keep_compacted);
            }
        },
        None => {
            push_clones(context, record.messages.as_slice());
        },
    }
    assert(msgs_view(context@) =~= before + loop_context(record@, recent));
}

/// The context for the loop `current_loop_id` of this session: the loops of
/// its chain within the scope, oldest first, each as its compaction block
/// gives it (head, summary and tail for the current loop, the summary for an
/// older one) or its raw messages when it has none.
pub fn build_context_from_session<C: TokenCounter>(
    session: &Session,
    current_loop_id: &str,
    scope: CompactionScope,
    max_context_tokens: usize,
    counter: &C,
) -> (r: Vec<AgentMessage>)
    requires
        chain_back(session@.loops, current_loop_id@, session@.loops.len() + 1) is Some,
        scope matches CompactionScope::FixedCount(n) ==> n < usize::MAX,
        match find_loop(session@.loops, current_loop_id@) {
            Some(j) => head_range_ordered(session@.loops[j]),
            None => true,
        },
    ensures
        msgs_view(r@) == session_context(counter, session@.loops, current_loop_id@, scope, max_context_tokens as nat),
{
    let ghost ls = session@.loops;
    let chain = session.loop_chain_to(current_loop_id);
    let ghost cv = crate::types::strs_view(chain@);
    proof {
        lemma_chain_starts_with(ls, current_loop_id@, ls.len() + 1);
        assert(cv.len() > 0);
        assert(cv.last() == current_loop_id@);
        lemma_walk_bound(counter, ls, earlier_back(cv), max_context_tokens as nat, 0);
    }
    let k = resolve_scope(session, &chain, scope, max_context_tokens, counter);
    let load_start = chain.len().saturating_sub(k + 1);
    let mut context: Vec<AgentMessage> = Vec::new();
    assert(msgs_view(context@) =~= seq![]);
    let mut i: usize = load_start;
    while i < chain.len()
        invariant
            load_start <= i <= chain.len(),
            cv == crate::types::strs_view(chain@),
            cv.len() > 0,
            cv.last() == current_loop_id@,
            ls == session@.loops,
            match find_loop(ls, current_loop_id@) {
                Some(j) => head_range_ordered(ls[j]),
                None => true,
            },
            msgs_view(context@) == chain_context(ls, cv, load_start as int, i as int),
        decreases chain.len() - i,
    {
        let ghost before = msgs_view(context@);
        match session.get_loop(chain[i].as_str()) {
            None => {
                assert(chain_context(ls, cv, load_start as int, i + 1) =~= before);
            },
            Some(record) => {
                let recent = i == chain.len() - 1;
                proof {
                    assert(chain@[i as int]@ == cv[i as int]);
                    if recent {
                        assert(cv[i as int] == current_loop_id@);
                    }
                }
                push_loop_context(&mut context, record, recent);
                assert(msgs_view(context@) =~= before + loop_context(record@, recent));
            },
        }
        i = i + 1;
    }
    context
}

/// The ids of the earlier loops whose blocks compaction creates: the last
/// `min(count, len - 1)` before the current loop, oldest first.
pub open spec fn earlier_ids(chain: Seq<Seq<char>>, count: nat) -> Seq<Seq<char>> {
    let k = if count < chain.len() - 1 { count } else { (chain.len() - 1) as nat };
    chain.subrange(chain.len() - 1 - k, chain.len() - 1)
}

/// Loop `j` gets a new block as an earlier loop: it is the first loop with one
/// of `ids` and had no block.
pub open spec fn earlier_target(ls: Seq<LoopRecordV>, ids: Seq<Seq<char>>, j: int) -> bool {
    &&& ls[j].compaction_block is None
    &&& exists|e: int| 0 <= e < ids.len() && find_loop(ls, #[trigger] ids[e]) == Some(j)
}

/// `after` is `before` with new blocks that `strategy` builds on loop `cur`
/// (the most recent) and on the earlier targets among `ids`, every other loop
/// untouched.
pub open spec fn blocks_set<S: BlockCompactionStrategy>(
    strategy: &S,
    before: Seq<LoopRecordV>,
    after: Seq<LoopRecordV>,
    cur: Option<int>,
    ids: Seq<Seq<char>>,
    params: BlockCompactionParams,
) -> bool {
    &&& after.len() == before.len()
    &&& forall|j: int| 0 <= j < before.len() ==> (#[trigger] after[j]) == LoopRecordV {
        compaction_block: after[j].compaction_block,
        ..before[j]
    }
    &&& forall|j: int| 0 <= j < before.len() ==> if cur == Some(j) {
        after[j].compaction_block matches Some(b) && strategy.builds(b, before[j].messages, params, true)
    } else if earlier_target(before, ids, j) {
        after[j].compaction_block matches Some(b) && strategy.builds(b, before[j].messages, params, false)
    } else {
        after[j].compaction_block == before[j].compaction_block
    }
}

fn set_block_at(ls: &mut Vec<LoopRecord>, j: usize, b: CompactionBlock)
    requires
        j < old(ls).len(),
    ensures
        crate::session::model::loops_view(final(ls)@) == crate::session::model::loops_view(old(ls)@).update(
            j as int,
            LoopRecordV { compaction_block: Some(b), ..crate::session::model::loops_view(old(ls)@)[j as int] },
        ),
{
    let ghost l0 = crate::session::model::loops_view(ls@);
    let mut r = ls.remove(j);
    r.compaction_block = Some(b);
    let ghost rv = r@;
    ls.insert(j, r);
    assert(crate::session::model::loops_view(ls@) =~= l0.update(j as int, rv));
}

/// Compaction is an overlay: every loop keeps its id, its messages, its turns
/// and its events; at most its compaction block changes.
pub proof fn law_compaction_keeps_loop_contents<S: BlockCompactionStrategy>(
    strategy: &S,
    before: Seq<LoopRecordV>,
    after: Seq<LoopRecordV>,
    cur: Option<int>,
    ids: Seq<Seq<char>>,
    params: BlockCompactionParams,
    j: int,
)
    requires
        blocks_set(strategy, before, after, cur, ids, params),
        0 <= j < before.len(),
    ensures
        after.len() == before.len(),
        after[j].loop_id == before[j].loop_id,
        after[j].messages == before[j].messages,
        after[j].turns == before[j].turns,
        after[j].events == before[j].events,
{
    assert(after[j] == LoopRecordV { compaction_block: after[j].compaction_block, ..before[j] });
}

/// Creates compaction blocks with the default strategy: for the loop
/// `current_loop_id` (all three sections) and for the earlier loops of its
/// chain that the scope covers and that have none yet (the summary only).
/// Nothing else changes.
pub fn compact_session_loops<S: BlockCompactionStrategy, C: TokenCounter>(
    session: &mut Session,
    current_loop_id: &str,
    strategy: &S,
    params: &BlockCompactionParams,
    scope: CompactionScope,
    max_context_tokens: usize,
    counter: &C,
)
    requires
        chain_back(old(session)@.loops, current_loop_id@, old(session)@.loops.len() + 1) is Some,
    ensures
        final(session)@ == (SessionV { loops: final(session)@.loops, ..old(session)@ }),
        blocks_set(
            strategy,
            old(session)@.loops,
            final(session)@.loops,
            find_loop(old(session)@.loops, current_loop_id@),
            earlier_ids(
                chain_to(old(session)@.loops, current_loop_id@),
                scope_count(counter, old(session)@.loops, chain_to(old(session)@.loops, current_loop_id@), scope, max_context_tokens as nat),
            ),
            *params,
        ),
{
    let ghost ls0 = session@.loops;
    let chain = session.loop_chain_to(current_loop_id);
    let ghost cv = crate::types::strs_view(chain@);
    proof {
        lemma_chain_starts_with(ls0, current_loop_id@, ls0.len() + 1);
    }
    let k0 = resolve_scope(&*session, &chain, scope, max_context_tokens, counter);
    let k = if k0 < chain.len() - 1 { k0 } else { chain.len() - 1 };
    let start = chain.len() - 1 - k;
    let ghost ids = earlier_ids(cv, k0 as nat);
    assert(ids =~= cv.subrange(start as int, chain.len() - 1));
    let cur = crate::session::model::position_of_loop(&session.loops, current_loop_id);
    let ghost curi: Option<int> = match cur { Some(j) => Some(j as int), None => None };
    match cur {
        Some(j) => {
            let b = strategy.compact(&session.loops[j].messages, params, true);
            set_block_at(&mut session.loops, j, b);
        },
        None => {},
    }
    let mut m: usize = start;
    while m < chain.len() - 1
        invariant
            start <= m <= chain.len() - 1,
            chain.len() >= 1,
            cv == crate::types::strs_view(chain@),
            ids == cv.subrange(start as int, chain.len() - 1),
            curi == find_loop(ls0, current_loop_id@),
            session@ == (SessionV { loops: session@.loops, ..old(session)@ }),
            ls0 == old(session)@.loops,
            blocks_set(strategy, ls0, session@.loops, curi, cv.subrange(start as int, m as int), *params),
        decreases chain.len() - 1 - m,
    {
        let ghost l1 = session@.loops;
        let ghost e = cv[m as int];
        assert(chain@[m as int]@ == e);
        assert(same_loop_ids(ls0, l1));
        proof {
            lemma_same_loop_ids_find(ls0, l1, e, 0);
            crate::session::model::lemma_find_loop_from(ls0, e, 0);
        }
        match crate::session::model::position_of_loop(&session.loops, chain[m].as_str()) {
            Some(j) => {
                if session.loops[j].compaction_block.is_none() {
                    let b = strategy.compact(&session.loops[j].messages, params, false);
                    set_block_at(&mut session.loops, j, b);
                    proof {
                        let l2 = session@.loops;
                        let ids2 = cv.subrange(start as int, m + 1);
                        assert(ids2[m - start] == e);
                        assert forall|x: int| 0 <= x < ls0.len() implies (#[trigger] l2[x]) == LoopRecordV {
                            compaction_block: l2[x].compaction_block,
                            ..ls0[x]
                        } by {
                            if x == j as int {
                                assert(l1[x] == LoopRecordV { compaction_block: l1[x].compaction_block, ..ls0[x] });
                            }
                        }
                        assert forall|x: int| 0 <= x < ls0.len() implies if curi == Some(x) {
                            l2[x].compaction_block matches Some(b) && strategy.builds(b, ls0[x].messages, *params, true)
                        } else if earlier_target(ls0, ids2, x) {
                            l2[x].compaction_block matches Some(b) && strategy.builds(b, ls0[x].messages, *params, false)
                        } else {
                            l2[x].compaction_block == ls0[x].compaction_block
                        } by {
                            let ids1 = cv.subrange(start as int, m as int);
                            if x == j as int {
                                assert(l1[x].messages == ls0[x].messages);
                                assert(curi != Some(x));
                                assert(earlier_target(ls0, ids2, x)) by {
                                    assert(find_loop(ls0, ids2[m - start]) == Some(x));
                                    if !(ls0[x].compaction_block is None) {
                                        assert(!earlier_target(ls0, ids1, x));
                                    }
                                }
                            } else {
                                assert(l2[x] == l1[x]);
                                if earlier_target(ls0, ids2, x) && curi != Some(x) {
                                    let w = choose|w: int| 0 <= w < ids2.len() && find_loop(ls0, #[trigger] ids2[w]) == Some(x);
                                    if w < ids1.len() {
                                        assert(ids1[w] == ids2[w]);
                                        assert(earlier_target(ls0, ids1, x));
                                    }
                                }
                                if earlier_target(ls0, ids1, x) {
                                    let w = choose|w: int| 0 <= w < ids1.len() && find_loop(ls0, #[trigger] ids1[w]) == Some(x);
                                    assert(ids2[w] == ids1[w]);
                                }
                            }
                        }
                    }
                } else {
                    proof {
                        let ids1 = cv.subrange(start as int, m as int);
                        let ids2 = cv.subrange(start as int, m + 1);
                        assert forall|x: int| 0 <= x < ls0.len() && curi != Some(x) implies earlier_target(ls0, ids2, x)
                            == earlier_target(ls0, ids1, x) by {
                            if earlier_target(ls0, ids2, x) {
                                let w = choose|w: int| 0 <= w < ids2.len() && find_loop(ls0, #[trigger] ids2[w]) == Some(x);
                                if w < ids1.len() {
                                    assert(ids1[w] == ids2[w]);
                                } else {
                                    assert(x == j as int);
                                }
                            }
                            if earlier_target(ls0, ids1, x) {
                                let w = choose|w: int| 0 <= w < ids1.len() && find_loop(ls0, #[trigger] ids1[w]) == Some(x);
                                assert(ids2[w] == ids1[w]);
                            }
                        }
                    }
                }
            },
            None => {
                proof {
                    let ids1 = cv.subrange(start as int, m as int);
                    let ids2 = cv.subrange(start as int, m + 1);
                    assert forall|x: int| 0 <= x < ls0.len() implies earlier_target(ls0, ids2, x)
                        == earlier_target(ls0, ids1, x) by {
                        if earlier_target(ls0, ids2, x) {
                            let w = choose|w: int| 0 <= w < ids2.len() && find_loop(ls0, #[trigger] ids2[w]) == Some(x);
                            if w < ids1.len() {
                                assert(ids1[w] == ids2[w]);
                            } else {
                                assert(ids2[w] == e);
                            }
                        }
                        if earlier_target(ls0, ids1, x) {
                            let w = choose|w: int| 0 <= w < ids1.len() && find_loop(ls0, #[trigger] ids1[w]) == Some(x);
                            assert(ids2[w] == ids1[w]);
                        }
                    }
                }
            },
        }
        m = m + 1;
    }
}

} // verus!
