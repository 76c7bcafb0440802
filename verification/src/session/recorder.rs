//! The session recorder: folds the events an agent emits into sessions,
//! loops, turns and event streams.
use vstd::prelude::*;
use crate::types::{
    AgentEvent, AgentMessage, AgentMessageV, LlmMessage, LlmMessageV, Message, MessageV, TurnId, TurnIdV,
    TurnTrigger, Usage, msgs_view, opt_str_view, strs_view,
};
use crate::session::model::{
    ChildLoopRefV, LoopEvent, LoopRecord, LoopRecordV, LoopConfigSnapshotV, ParallelGroupRecordV, Session, SessionFormation,
    SessionFormationV, SessionV, SpawnRefV, Turn, TurnV, find_loop, refs_view, turns_view, opt_config_view, find_loop_from, find_session, find_session_from,
    lemma_find_loop_from, lemma_find_session_from, loops_view, position_of_loop, position_of_session, sessions_view,
};
use crate::session::{
    ChildLoopRef, LoopConfigSnapshot, LoopStatus, ParallelGroupRecord, SessionRecorderConfig, SessionScope, SpawnRef,
    config_of_loop, extract_config_snapshot, first_assistant, session_id_from_loop_id, session_of_loop,
};
use crate::strs::{copy_string, str_eq};

verus! {

broadcast use vstd::string::group_string_axioms;

/// A turn between its `TurnStart` and its `TurnEnd`.
pub struct PartialTurn {
    pub turn_id: TurnId,
    pub triggered_by: TurnTrigger,
    pub started_at: i64,
    pub input_messages: Vec<AgentMessage>,
}

pub struct PartialTurnV {
    pub turn_id: TurnIdV,
    pub triggered_by: TurnTrigger,
    pub started_at: i64,
    pub input_messages: Seq<AgentMessageV>,
}

impl View for PartialTurn {
    type V = PartialTurnV;

    open spec fn view(&self) -> PartialTurnV {
        PartialTurnV {
            turn_id: self.turn_id@,
            triggered_by: self.triggered_by,
            started_at: self.started_at,
            input_messages: msgs_view(self.input_messages@),
        }
    }
}

/// A parallel group announced by `ParallelLoopStart`: a branch's loop id and
/// the loop ids of all branches.
pub struct PartialGroup {
    pub key: String,
    pub all_loop_ids: Vec<String>,
}

/// Records every event into sessions of loops. Loops are open between their
/// `AgentStart` and `AgentEnd`; a session stays open until `flush` or
/// `checkpoint` moves it to the completed list.
pub struct SessionRecorder {
    config: SessionRecorderConfig,
    completed: Vec<Session>,
    open_sessions: Vec<Session>,
    open_loops: Vec<LoopRecord>,
    partial_groups: Vec<PartialGroup>,
    partial_turns: Vec<PartialTurn>,
}

/// The value of a recorder.
pub struct RecorderV {
    pub include_streaming: bool,
    pub completed: Seq<SessionV>,
    pub open_sessions: Seq<SessionV>,
    pub open_loops: Seq<LoopRecordV>,
    pub groups: Seq<(Seq<char>, Seq<Seq<char>>)>,
    pub partial_turns: Seq<PartialTurnV>,
}

pub open spec fn groups_view(v: Seq<PartialGroup>) -> Seq<(Seq<char>, Seq<Seq<char>>)> {
    v.map_values(|g: PartialGroup| (g.key@, strs_view(g.all_loop_ids@)))
}

pub open spec fn pturns_view(v: Seq<PartialTurn>) -> Seq<PartialTurnV> {
    v.map_values(|t: PartialTurn| t@)
}

impl View for SessionRecorder {
    type V = RecorderV;

    closed spec fn view(&self) -> RecorderV {
        RecorderV {
            include_streaming: self.config.include_streaming_events,
            completed: sessions_view(self.completed@),
            open_sessions: sessions_view(self.open_sessions@),
            open_loops: loops_view(self.open_loops@),
            groups: groups_view(self.partial_groups@),
            partial_turns: pturns_view(self.partial_turns@),
        }
    }
}

// ---------------------------------------------------------------------------
// Lookups by key
// ---------------------------------------------------------------------------

/// The position of the first group keyed `id`, searching from `i`.
pub open spec fn find_group_from(gs: Seq<(Seq<char>, Seq<Seq<char>>)>, id: Seq<char>, i: int) -> Option<int>
    decreases gs.len() - i,
{
    if i < 0 || i >= gs.len() {
        None
    } else if gs[i].0 == id {
        Some(i)
    } else {
        find_group_from(gs, id, i + 1)
    }
}

pub open spec fn find_group(gs: Seq<(Seq<char>, Seq<Seq<char>>)>, id: Seq<char>) -> Option<int> {
    find_group_from(gs, id, 0)
}

/// The position of the first partial turn of loop `id`, searching from `i`.
pub open spec fn find_turn_from(ts: Seq<PartialTurnV>, id: Seq<char>, i: int) -> Option<int>
    decreases ts.len() - i,
{
    if i < 0 || i >= ts.len() {
        None
    } else if ts[i].turn_id.loop_id == id {
        Some(i)
    } else {
        find_turn_from(ts, id, i + 1)
    }
}

pub open spec fn find_turn(ts: Seq<PartialTurnV>, id: Seq<char>) -> Option<int> {
    find_turn_from(ts, id, 0)
}

// ---------------------------------------------------------------------------
// The step of one event
// ---------------------------------------------------------------------------

/// The sequence number after `n` (wrapping at the end of the `u64` range).
pub open spec fn next_after(n: u64) -> u64 {
    if n < u64::MAX { (n + 1) as u64 } else { 0 }
}

/// `r` with `ev` appended to its event stream under the loop's next sequence
/// number, which then advances.
pub open spec fn with_event(r: LoopRecordV, ev: AgentEvent) -> LoopRecordV {
    LoopRecordV {
        events: r.events.push(LoopEvent { sequence: r.next_sequence, event: ev }),
        next_sequence: next_after(r.next_sequence),
        ..r
    }
}

/// An event for the open loop `id` that is not recorded still advances its
/// sequence number.
pub open spec fn skip_event(ls: Seq<LoopRecordV>, id: Seq<char>) -> Seq<LoopRecordV> {
    match find_loop(ls, id) {
        Some(i) => ls.update(i, LoopRecordV { next_sequence: next_after(ls[i].next_sequence), ..ls[i] }),
        None => ls,
    }
}

/// `ev` appended to the stream of the open loop `id`, if it is open.
pub open spec fn append_event(ls: Seq<LoopRecordV>, id: Seq<char>, ev: AgentEvent) -> Seq<LoopRecordV> {
    match find_loop(ls, id) {
        Some(i) => ls.update(i, with_event(ls[i], ev)),
        None => ls,
    }
}

/// The group of each id of `ids` registered with the branch list `all`, unless one is.
pub open spec fn register_groups(
    gs: Seq<(Seq<char>, Seq<Seq<char>>)>,
    ids: Seq<Seq<char>>,
    all: Seq<Seq<char>>,
) -> Seq<(Seq<char>, Seq<Seq<char>>)>
    decreases ids.len(),
{
    if ids.len() == 0 {
        gs
    } else {
        let g2 = if find_group(gs, ids[0]) is Some { gs } else { gs.push((ids[0], all)) };
        register_groups(g2, ids.drop_first(), all)
    }
}

/// A session opened by the first `AgentStart` that names it.
pub open spec fn new_session(sid: Seq<char>, aid: Seq<char>, ts: i64) -> SessionV {
    SessionV {
        session_id: sid,
        agent_id: aid,
        created_at: ts,
        last_active_at: ts,
        formation: SessionFormationV::FirstLoop { timestamp: ts },
        parent_spawn_ref: None,
        thinking_level: None,
        temperature: None,
        scope: SessionScope::Ephemeral,
        loops: seq![],
    }
}

/// The session after a loop of it starts at `ts`: marked active, and linked to
/// the parent loop's session when that is another session and no link is set.
pub open spec fn touch_session(s: SessionV, ts: i64, parent: Option<Seq<char>>) -> SessionV {
    let s1 = SessionV { last_active_at: ts, ..s };
    match parent {
        Some(plid) => {
            let psid = session_of_loop(plid);
            if psid != s1.session_id && s1.parent_spawn_ref is None {
                SessionV {
                    parent_spawn_ref: Some(SpawnRefV {
                        parent_session_id: psid,
                        parent_loop_id: plid,
                        tool_call_id: seq![],
                        tool_name: seq![],
                    }),
                    ..s1
                }
            } else {
                s1
            }
        },
        None => s1,
    }
}

/// The completed and open sessions once session `sid` is open: a completed
/// session with that id (and no open one) is moved back to the open ones, so
/// that a session id is never opened twice.
pub open spec fn reopen(done: Seq<SessionV>, open: Seq<SessionV>, sid: Seq<char>) -> (Seq<SessionV>, Seq<SessionV>) {
    if find_session(open, sid) is Some {
        (done, open)
    } else {
        match find_session(done, sid) {
            Some(i) => (done.remove(i), open.push(done[i])),
            None => (done, open),
        }
    }
}

/// The open sessions after an `AgentStart`.
pub open spec fn start_sessions(ss: Seq<SessionV>, sid: Seq<char>, aid: Seq<char>, ts: i64, parent: Option<Seq<char>>) -> Seq<SessionV> {
    match find_session(ss, sid) {
        Some(i) => ss.update(i, touch_session(ss[i], ts, parent)),
        None => ss.push(touch_session(new_session(sid, aid, ts), ts, parent)),
    }
}

/// The record of a loop that has just started.
pub open spec fn new_loop(
    lid: Seq<char>,
    sid: Seq<char>,
    aid: Seq<char>,
    parent: Option<Seq<char>>,
    kind: Option<crate::types::ContinuationKind>,
    ts: i64,
    metadata: Option<Seq<char>>,
) -> LoopRecordV {
    LoopRecordV {
        loop_id: lid,
        session_id: sid,
        agent_id: aid,
        parent_loop_id: parent,
        continuation_kind: kind,
        started_at: ts,
        ended_at: None,
        status: LoopStatus::Running,
        rejection: None,
        config: None,
        messages: seq![],
        turns: seq![],
        usage: Usage { input: 0, output: 0, reasoning: 0, cache_read: 0, cache_write: 0, total_tokens: 0 },
        metadata,
        events: seq![],
        next_sequence: 0,
        children_loop_ids: seq![],
        child_loop_refs: seq![],
        parallel_group: None,
        compaction_block: None,
    }
}

/// `r` put in place of the open loop with its id, or added.
pub open spec fn put_loop(ls: Seq<LoopRecordV>, r: LoopRecordV) -> Seq<LoopRecordV> {
    match find_loop(ls, r.loop_id) {
        Some(i) => ls.update(i, r),
        None => ls.push(r),
    }
}

/// `p` with `child` among its children.
pub open spec fn add_child(p: LoopRecordV, child: Seq<char>) -> LoopRecordV {
    if p.children_loop_ids.contains(child) {
        p
    } else {
        LoopRecordV { children_loop_ids: p.children_loop_ids.push(child), ..p }
    }
}

/// The configuration snapshot of the first assistant message of `ms`.
pub open spec fn snapshot_of(ms: Seq<AgentMessageV>, lid: Seq<char>) -> Option<LoopConfigSnapshotV> {
    match first_assistant(ms) {
        Some((model, provider)) => Some(LoopConfigSnapshotV { model, provider, config_id: config_of_loop(lid) }),
        None => None,
    }
}

/// A loop closed by `AgentEnd`.
pub open spec fn closed_loop(
    r: LoopRecordV,
    lid: Seq<char>,
    msgs: Seq<AgentMessageV>,
    usage: Usage,
    ts: i64,
    rejection: Option<Seq<char>>,
) -> LoopRecordV {
    LoopRecordV {
        ended_at: Some(ts),
        status: if rejection is Some { LoopStatus::Rejected } else { LoopStatus::Completed },
        rejection,
        messages: msgs,
        usage,
        config: if r.config is None { snapshot_of(msgs, lid) } else { r.config },
        ..r
    }
}

/// The parent of a closing loop learns of its child: in the loop's session
/// when the parent is recorded there, else among the open loops when it is
/// open and of the same session.
pub open spec fn link_parent(
    ss: Seq<SessionV>,
    ls: Seq<LoopRecordV>,
    parent: Option<Seq<char>>,
    sid: Seq<char>,
    lid: Seq<char>,
) -> (Seq<SessionV>, Seq<LoopRecordV>) {
    match parent {
        None => (ss, ls),
        Some(plid) => match find_session(ss, sid) {
            Some(k) if find_loop(ss[k].loops, plid) is Some => {
                let j = find_loop(ss[k].loops, plid)->0;
                let s = ss[k];
                (ss.update(k, SessionV { loops: s.loops.update(j, add_child(s.loops[j], lid)), ..s }), ls)
            },
            _ => match find_loop(ls, plid) {
                Some(j) => if ls[j].session_id == sid {
                    (ss, ls.update(j, add_child(ls[j], lid)))
                } else {
                    (ss, ls)
                },
                None => (ss, ls),
            },
        },
    }
}

/// `r` added to the loops of its session, if that session is open.
pub open spec fn file_loop(ss: Seq<SessionV>, r: LoopRecordV) -> Seq<SessionV> {
    match find_session(ss, r.session_id) {
        Some(k) => ss.update(k, SessionV { loops: ss[k].loops.push(r), ..ss[k] }),
        None => ss,
    }
}

/// The partial turns without the one of loop `lid`.
pub open spec fn drop_turn(ts: Seq<PartialTurnV>, lid: Seq<char>) -> Seq<PartialTurnV> {
    match find_turn(ts, lid) {
        Some(i) => ts.remove(i),
        None => ts,
    }
}

/// After `AgentEnd`: the event recorded, the partial turn dropped, and the
/// loop closed, linked to its parent and filed into its session.
pub open spec fn end_step(
    s: RecorderV,
    ev: AgentEvent,
    lid: Seq<char>,
    msgs: Seq<AgentMessageV>,
    usage: Usage,
    ts: i64,
    rejection: Option<Seq<char>>,
) -> RecorderV {
    let ls1 = append_event(s.open_loops, lid, ev);
    let pts = drop_turn(s.partial_turns, lid);
    match find_loop(ls1, lid) {
        None => RecorderV { open_loops: ls1, partial_turns: pts, ..s },
        Some(i) => {
            let r = closed_loop(ls1[i], lid, msgs, usage, ts, rejection);
            let linked = link_parent(s.open_sessions, ls1.remove(i), r.parent_loop_id, r.session_id, lid);
            RecorderV { open_sessions: file_loop(linked.0, r), open_loops: linked.1, partial_turns: pts, ..s }
        },
    }
}

/// `t` put in place of the partial turn of its loop, or added.
pub open spec fn put_turn(ts: Seq<PartialTurnV>, t: PartialTurnV) -> Seq<PartialTurnV> {
    match find_turn(ts, t.turn_id.loop_id) {
        Some(i) => ts.update(i, t),
        None => ts.push(t),
    }
}

/// A message that is not the assistant's.
pub open spec fn is_input(m: AgentMessageV) -> bool {
    !(m matches AgentMessageV::Llm(LlmMessageV { message: MessageV::Assistant { .. }, .. }))
}

/// `m` added to the input of the partial turn of loop `lid`, when `m` is input.
pub open spec fn add_input(ts: Seq<PartialTurnV>, lid: Seq<char>, m: AgentMessageV) -> Seq<PartialTurnV> {
    if is_input(m) {
        match find_turn(ts, lid) {
            Some(i) => ts.update(i, PartialTurnV { input_messages: ts[i].input_messages.push(m), ..ts[i] }),
            None => ts,
        }
    } else {
        ts
    }
}

/// A tool result message of turn `tid`.
pub open spec fn tool_result_message(m: MessageV, tid: TurnIdV) -> AgentMessageV {
    AgentMessageV::Llm(LlmMessageV { message: m, turn_id: Some(tid), node_id: None, parent_id: None, tags: seq![] })
}

/// The turn a partial turn becomes at its `TurnEnd`.
pub open spec fn finished_turn(pt: PartialTurnV, usage: Usage, out: AgentMessageV, results: Seq<MessageV>, ts: i64) -> TurnV {
    TurnV {
        turn_id: pt.turn_id,
        triggered_by: pt.triggered_by,
        usage,
        input_messages: pt.input_messages,
        output_message: out,
        tool_results: results.map_values(|m: MessageV| tool_result_message(m, pt.turn_id)),
        started_at: pt.started_at,
        ended_at: ts,
    }
}

/// The open loop `lid` with its configuration read from `m`, when it has none.
pub open spec fn set_config_from(ls: Seq<LoopRecordV>, lid: Seq<char>, m: AgentMessageV) -> Seq<LoopRecordV> {
    match find_loop(ls, lid) {
        Some(j) => if ls[j].config is None {
            ls.update(j, LoopRecordV { config: snapshot_of(seq![m], lid), ..ls[j] })
        } else {
            ls
        },
        None => ls,
    }
}

/// After `TurnEnd`: the event recorded, the partial turn finished into a
/// turn of its loop, and the loop's configuration read from the message.
pub open spec fn turn_end_step(
    s: RecorderV,
    ev: AgentEvent,
    lid: Seq<char>,
    m: AgentMessageV,
    usage: Usage,
    ts: i64,
    results: Seq<MessageV>,
) -> RecorderV {
    let ls1 = append_event(s.open_loops, lid, ev);
    match find_turn(s.partial_turns, lid) {
        None => RecorderV { open_loops: set_config_from(ls1, lid, m), ..s },
        Some(i) => {
            let t = finished_turn(s.partial_turns[i], usage, m, results, ts);
            let ls2 = match find_loop(ls1, lid) {
                Some(j) => ls1.update(j, LoopRecordV { turns: ls1[j].turns.push(t), ..ls1[j] }),
                None => ls1,
            };
            RecorderV { open_loops: set_config_from(ls2, lid, m), partial_turns: s.partial_turns.remove(i), ..s }
        },
    }
}

/// The spawn link of a child session completed with the tool call that spawned
/// it, when the link is still missing its tool call.
pub open spec fn enrich(s: SessionV, psid: Seq<char>, plid: Seq<char>, tcid: Seq<char>, tn: Seq<char>) -> SessionV {
    match s.parent_spawn_ref {
        Some(sr) => if sr.tool_call_id.len() == 0 {
            SessionV {
                parent_spawn_ref: Some(SpawnRefV { parent_session_id: psid, parent_loop_id: plid, tool_call_id: tcid, tool_name: tn }),
                ..s
            }
        } else {
            s
        },
        None => s,
    }
}

/// After `ToolExecutionEnd`: the event recorded; when the tool spawned a child
/// loop and the loop is open, a reference to the child, and the spawn link of
/// the child's session (open, else completed) completed.
pub open spec fn tool_end_step(
    s: RecorderV,
    ev: AgentEvent,
    lid: Seq<char>,
    tcid: Seq<char>,
    tn: Seq<char>,
    child: Option<Seq<char>>,
) -> RecorderV {
    let ls1 = append_event(s.open_loops, lid, ev);
    match child {
        None => RecorderV { open_loops: ls1, ..s },
        Some(c) => match find_loop(ls1, lid) {
            None => RecorderV { open_loops: ls1, ..s },
            Some(j) => {
                let csid = session_of_loop(c);
                let rf = ChildLoopRefV { tool_call_id: tcid, tool_name: tn, child_loop_id: c, child_session_id: csid };
                let ls2 = ls1.update(j, LoopRecordV { child_loop_refs: ls1[j].child_loop_refs.push(rf), ..ls1[j] });
                let psid = ls1[j].session_id;
                match find_session(s.open_sessions, csid) {
                    Some(k) => RecorderV {
                        open_loops: ls2,
                        open_sessions: s.open_sessions.update(k, enrich(s.open_sessions[k], psid, lid, tcid, tn)),
                        ..s
                    },
                    None => match find_session(s.completed, csid) {
                        Some(k) => RecorderV {
                            open_loops: ls2,
                            completed: s.completed.update(k, enrich(s.completed[k], psid, lid, tcid, tn)),
                            ..s
                        },
                        None => RecorderV { open_loops: ls2, ..s },
                    },
                }
            },
        },
    }
}

/// The group record of branch `lid`.
pub open spec fn group_for(all: Seq<Seq<char>>, sel: Seq<char>, idx: usize, usage: Usage, lid: Seq<char>) -> ParallelGroupRecordV {
    ParallelGroupRecordV { all_loop_ids: all, selected_loop_id: sel, selected_config_index: idx, evaluation_usage: usage, is_selected: lid == sel }
}

/// The first loop `lid` of a session given the group record `g`.
pub open spec fn set_group_in(s: SessionV, lid: Seq<char>, g: ParallelGroupRecordV) -> SessionV {
    match find_loop(s.loops, lid) {
        Some(j) => SessionV { loops: s.loops.update(j, LoopRecordV { parallel_group: Some(g), ..s.loops[j] }), ..s },
        None => s,
    }
}

/// Branch `lid` given the group record `g`: as an open loop, and in every
/// open and completed session.
pub open spec fn set_group(s: RecorderV, lid: Seq<char>, g: ParallelGroupRecordV) -> RecorderV {
    RecorderV {
        open_loops: match find_loop(s.open_loops, lid) {
            Some(j) => s.open_loops.update(j, LoopRecordV { parallel_group: Some(g), ..s.open_loops[j] }),
            None => s.open_loops,
        },
        open_sessions: s.open_sessions.map_values(|x: SessionV| set_group_in(x, lid, g)),
        completed: s.completed.map_values(|x: SessionV| set_group_in(x, lid, g)),
        ..s
    }
}

/// Every branch of `ids` given its group record, in order.
pub open spec fn set_groups(s: RecorderV, ids: Seq<Seq<char>>, all: Seq<Seq<char>>, sel: Seq<char>, idx: usize, usage: Usage) -> RecorderV
    decreases ids.len(),
{
    if ids.len() == 0 {
        s
    } else {
        set_groups(set_group(s, ids[0], group_for(all, sel, idx, usage, ids[0])), ids.drop_first(), all, sel, idx, usage)
    }
}

/// The groups without those keyed by an id of `ids`.
pub open spec fn drop_groups(gs: Seq<(Seq<char>, Seq<Seq<char>>)>, ids: Seq<Seq<char>>) -> Seq<(Seq<char>, Seq<Seq<char>>)>
    decreases ids.len(),
{
    if ids.len() == 0 {
        gs
    } else {
        let g2 = match find_group(gs, ids[0]) {
            Some(i) => gs.remove(i),
            None => gs,
        };
        drop_groups(g2, ids.drop_first())
    }
}

/// After `ParallelLoopEnd`: every branch of the group given its group record,
/// and the group forgotten.
pub open spec fn parallel_end_step(s: RecorderV, sel: Seq<char>, idx: usize, usage: Usage) -> RecorderV {
    let all = match find_group(s.groups, sel) {
        Some(i) => s.groups[i].1,
        None => seq![sel],
    };
    let s2 = set_groups(s, all, all, sel, idx, usage);
    RecorderV { groups: drop_groups(s2.groups, all), ..s2 }
}

/// The loop an otherwise unhandled event belongs to.
pub open spec fn event_loop(ev: AgentEvent) -> Option<Seq<char>> {
    match ev {
        AgentEvent::MessageStart { loop_id, .. } => Some(loop_id@),
        AgentEvent::ToolExecutionStart { loop_id, .. } => Some(loop_id@),
        AgentEvent::ToolExecutionUpdate { loop_id, .. } => Some(loop_id@),
        AgentEvent::ProgressMessage { loop_id, .. } => if loop_id@.len() > 0 { Some(loop_id@) } else { None },
        AgentEvent::InputRejected { loop_id, .. } => if loop_id@.len() > 0 { Some(loop_id@) } else { None },
        AgentEvent::CompactionStarted { loop_id, .. } => Some(loop_id@),
        AgentEvent::CompactionEnded { loop_id, .. } => Some(loop_id@),
        _ => None,
    }
}

/// What one event does to a recorder.
pub open spec fn recorder_step(s: RecorderV, ev: AgentEvent) -> RecorderV {
    match ev {
        AgentEvent::ParallelLoopStart { loop_ids, .. } => RecorderV {
            groups: register_groups(s.groups, strs_view(loop_ids@), strs_view(loop_ids@)),
            ..s
        },
        AgentEvent::AgentStart { agent_id, session_id, loop_id, parent_loop_id, continuation_kind, timestamp, metadata } => {
            let r = new_loop(loop_id@, session_id@, agent_id@, opt_str_view(parent_loop_id), continuation_kind, timestamp, opt_str_view(metadata));
            let (done, open) = reopen(s.completed, s.open_sessions, session_id@);
            RecorderV {
                completed: done,
                open_sessions: start_sessions(open, session_id@, agent_id@, timestamp, opt_str_view(parent_loop_id)),
                open_loops: append_event(put_loop(s.open_loops, r), loop_id@, ev),
                ..s
            }
        },
        AgentEvent::AgentEnd { loop_id, messages, usage, timestamp, rejection } =>
            end_step(s, ev, loop_id@, msgs_view(messages@), usage, timestamp, opt_str_view(rejection)),
        AgentEvent::TurnStart { loop_id, turn_index, timestamp, triggered_by } => RecorderV {
            partial_turns: put_turn(s.partial_turns, PartialTurnV {
                turn_id: TurnIdV { loop_id: loop_id@, turn_index },
                triggered_by,
                started_at: timestamp,
                input_messages: seq![],
            }),
            open_loops: append_event(s.open_loops, loop_id@, ev),
            ..s
        },
        AgentEvent::MessageEnd { loop_id, message } => RecorderV {
            partial_turns: add_input(s.partial_turns, loop_id@, message@),
            open_loops: append_event(s.open_loops, loop_id@, ev),
            ..s
        },
        AgentEvent::TurnEnd { loop_id, message, usage, timestamp, tool_results } =>
            turn_end_step(s, ev, loop_id@, message@, usage, timestamp, tool_results@.map_values(|m: Message| m@)),
        AgentEvent::ToolExecutionEnd { loop_id, tool_call_id, tool_name, result, .. } =>
            tool_end_step(s, ev, loop_id@, tool_call_id@, tool_name@, opt_str_view(result.child_loop_id)),
        AgentEvent::ParallelLoopEnd { selected_loop_id, selected_config_index, evaluation_usage, .. } =>
            parallel_end_step(s, selected_loop_id@, selected_config_index, evaluation_usage),
        AgentEvent::MessageUpdate { loop_id, .. } => if s.include_streaming {
            RecorderV { open_loops: append_event(s.open_loops, loop_id@, ev), ..s }
        } else {
            RecorderV { open_loops: skip_event(s.open_loops, loop_id@), ..s }
        },
        _ => match event_loop(ev) {
            Some(lid) => RecorderV { open_loops: append_event(s.open_loops, lid, ev), ..s },
            None => s,
        },
    }
}

// ---------------------------------------------------------------------------
// Executable lookups and updates
// ---------------------------------------------------------------------------

fn position_of_group(v: &Vec<PartialGroup>, id: &str) -> (r: Option<usize>)
    ensures
        match r {
            Some(k) => k < v.len() && find_group(groups_view(v@), id@) == Some(k as int),
            None => find_group(groups_view(v@), id@) is None,
        },
{
    let ghost gs = groups_view(v@);
    let mut i: usize = 0;
    while i < v.len()
        invariant
            0 <= i <= v.len(),
            gs == groups_view(v@),
            find_group(gs, id@) == find_group_from(gs, id@, i as int),
        decreases v.len() - i,
    {
        if str_eq(v[i].key.as_str(), id) {
            return Some(i);
        }
        i = i + 1;
    }
    None
}

fn position_of_turn(v: &Vec<PartialTurn>, id: &str) -> (r: Option<usize>)
    ensures
        match r {
            Some(k) => k < v.len() && find_turn(pturns_view(v@), id@) == Some(k as int),
            None => find_turn(pturns_view(v@), id@) is None,
        },
{
    let ghost ts = pturns_view(v@);
    let mut i: usize = 0;
    while i < v.len()
        invariant
            0 <= i <= v.len(),
            ts == pturns_view(v@),
            find_turn(ts, id@) == find_turn_from(ts, id@, i as int),
        decreases v.len() - i,
    {
        if str_eq(v[i].turn_id.loop_id.as_str(), id) {
            return Some(i);
        }
        i = i + 1;
    }
    None
}

/// The sequence number after `n`.
fn sequence_after(n: u64) -> (r: u64)
    ensures
        r == next_after(n),
{
    if n < u64::MAX { n + 1 } else { 0 }
}

/// Advances the sequence number of the open loop `id`, if it is open.
fn skip_event_in(ls: &mut Vec<LoopRecord>, id: &str)
    ensures
        loops_view(final(ls)@) == skip_event(loops_view(old(ls)@), id@),
{
    match position_of_loop(ls, id) {
        Some(i) => {
            let ghost before = loops_view(ls@);
            let mut r = ls.remove(i);
            let ghost r0 = r@;
            r.next_sequence = sequence_after(r.next_sequence);
            assert(r@ == (LoopRecordV { next_sequence: next_after(r0.next_sequence), ..r0 }));
            ls.insert(i, r);
            assert(loops_view(ls@) =~= before.update(i as int, LoopRecordV { next_sequence: next_after(before[i as int].next_sequence), ..before[i as int] }));
        },
        None => {},
    }
}

/// Appends `ev` to the stream of the open loop `id`, if it is open.
fn append_event_to(ls: &mut Vec<LoopRecord>, id: &str, ev: AgentEvent)
    ensures
        loops_view(final(ls)@) == append_event(loops_view(old(ls)@), id@, ev),
{
    match position_of_loop(ls, id) {
        Some(i) => {
            let ghost before = loops_view(ls@);
            let mut r = ls.remove(i);
            let ghost r0 = r@;
            let n = r.next_sequence;
            r.events.push(LoopEvent { sequence: n, event: ev });
            r.next_sequence = sequence_after(n);
            assert(r@ == with_event(r0, ev));
            ls.insert(i, r);
            assert(loops_view(ls@) =~= before.update(i as int, with_event(before[i as int], ev)));
        },
        None => {},
    }
}

impl SessionRecorder {
    /// A recorder with nothing recorded.
    pub fn new(config: SessionRecorderConfig) -> (r: SessionRecorder)
        ensures
            r@ == (RecorderV {
                include_streaming: config.include_streaming_events,
                completed: seq![],
                open_sessions: seq![],
                open_loops: seq![],
                groups: seq![],
                partial_turns: seq![],
            }),
    {
        let r = SessionRecorder {
            config,
            completed: Vec::new(),
            open_sessions: Vec::new(),
            open_loops: Vec::new(),
            partial_groups: Vec::new(),
            partial_turns: Vec::new(),
        };
        assert(sessions_view(r.completed@) =~= seq![]);
        assert(sessions_view(r.open_sessions@) =~= seq![]);
        assert(loops_view(r.open_loops@) =~= seq![]);
        assert(groups_view(r.partial_groups@) =~= seq![]);
        assert(pturns_view(r.partial_turns@) =~= seq![]);
        r
    }

    fn on_parallel_start(&mut self, loop_ids: &Vec<String>)
        ensures
            final(self)@ == (RecorderV {
                groups: register_groups(old(self)@.groups, strs_view(loop_ids@), strs_view(loop_ids@)),
                ..old(self)@
            }),
    {
        let ghost all = strs_view(loop_ids@);
        let ghost g0 = groups_view(self.partial_groups@);
        let mut i: usize = 0;
        proof {
            assert(all.skip(0) =~= all);
        }
        while i < loop_ids.len()
            invariant
                0 <= i <= loop_ids.len(),
                all == strs_view(loop_ids@),
                register_groups(g0, all, all) == register_groups(groups_view(self.partial_groups@), all.skip(i as int), all),
                self.config == old(self).config,
                self.completed == old(self).completed,
                self.open_sessions == old(self).open_sessions,
                self.open_loops == old(self).open_loops,
                self.partial_turns == old(self).partial_turns,
            decreases loop_ids.len() - i,
        {
            let ghost gv = groups_view(self.partial_groups@);
            assert(all.skip(i as int)[0] == loop_ids@[i as int]@);
            assert(all.skip(i as int).drop_first() =~= all.skip(i + 1));
            if position_of_group(&self.partial_groups, loop_ids[i].as_str()).is_none() {
                let g = PartialGroup { key: copy_string(&loop_ids[i]), all_loop_ids: crate::types::clone_strings(loop_ids) };
                self.partial_groups.push(g);
                assert(groups_view(self.partial_groups@) =~= gv.push((loop_ids@[i as int]@, all)));
            }
            i = i + 1;
        }
        assert(all.skip(loop_ids.len() as int) =~= seq![]);
    }
}

fn touch(s: &mut Session, ts: i64, parent: &Option<String>)
    ensures
        final(s)@ == touch_session(old(s)@, ts, opt_str_view(*parent)),
{
    s.last_active_at = ts;
    if let Some(plid) = parent {
        let psid = session_id_from_loop_id(plid.as_str());
        if !str_eq(psid.as_str(), s.session_id.as_str()) && s.parent_spawn_ref.is_none() {
            s.parent_spawn_ref = Some(SpawnRef {
                parent_session_id: psid,
                parent_loop_id: copy_string(plid),
                tool_call_id: String::new(),
                tool_name: String::new(),
            });
        }
    }
}

/// `r` in place of the open loop with its id, or added.
fn put_loop_into(ls: &mut Vec<LoopRecord>, r: LoopRecord)
    ensures
        loops_view(final(ls)@) == put_loop(loops_view(old(ls)@), r@),
{
    let ghost before = loops_view(ls@);
    let ghost rv = r@;
    match position_of_loop(ls, r.loop_id.as_str()) {
        Some(i) => {
            let _old = ls.remove(i);
            ls.insert(i, r);
            assert(loops_view(ls@) =~= before.update(i as int, rv));
        },
        None => {
            ls.push(r);
            assert(loops_view(ls@) =~= before.push(rv));
        },
    }
}

impl SessionRecorder {
    fn on_agent_start(&mut self, ev: AgentEvent)
        requires
            ev is AgentStart,
        ensures
            final(self)@ == recorder_step(old(self)@, ev),
    {
        let ghost ev0 = ev;
        let (lid, sid, aid, parent, kind, ts, meta) = match &ev {
            AgentEvent::AgentStart { agent_id, session_id, loop_id, parent_loop_id, continuation_kind, timestamp, metadata } => (
                copy_string(loop_id),
                copy_string(session_id),
                copy_string(agent_id),
                crate::types::clone_opt_string(parent_loop_id),
                *continuation_kind,
                *timestamp,
                crate::types::clone_opt_string(metadata),
            ),
            _ => {
                proof {
                    assert(false);
                }
                return;
            },
        };
        let ghost done0 = sessions_view(self.completed@);
        let ghost open0 = sessions_view(self.open_sessions@);
        if position_of_session(&self.open_sessions, sid.as_str()).is_none() {
            match position_of_session(&self.completed, sid.as_str()) {
                Some(i) => {
                    let back = self.completed.remove(i);
                    self.open_sessions.push(back);
                    assert(sessions_view(self.completed@) =~= done0.remove(i as int));
                    assert(sessions_view(self.open_sessions@) =~= open0.push(done0[i as int]));
                },
                None => {},
            }
        }
        assert((sessions_view(self.completed@), sessions_view(self.open_sessions@)) == reopen(done0, open0, sid@));
        let ghost ss0 = sessions_view(self.open_sessions@);
        match position_of_session(&self.open_sessions, sid.as_str()) {
            Some(k) => {
                let mut s = self.open_sessions.remove(k);
                touch(&mut s, ts, &parent);
                self.open_sessions.insert(k, s);
                assert(sessions_view(self.open_sessions@) =~= ss0.update(k as int, touch_session(ss0[k as int], ts, opt_str_view(parent))));
            },
            None => {
                let mut s = Session {
                    session_id: copy_string(&sid),
                    agent_id: copy_string(&aid),
                    created_at: ts,
                    last_active_at: ts,
                    formation: SessionFormation::FirstLoop { timestamp: ts },
                    parent_spawn_ref: None,
                    thinking_level: None,
                    temperature: None,
                    scope: SessionScope::Ephemeral,
                    loops: Vec::new(),
                };
                assert(s@ =~= new_session(sid@, aid@, ts)) by {
                    assert(loops_view(s.loops@) =~= seq![]);
                }
                touch(&mut s, ts, &parent);
                self.open_sessions.push(s);
                assert(sessions_view(self.open_sessions@) =~= ss0.push(touch_session(new_session(sid@, aid@, ts), ts, opt_str_view(parent))));
            },
        }
        let r = LoopRecord {
            loop_id: copy_string(&lid),
            session_id: sid,
            agent_id: aid,
            parent_loop_id: parent,
            continuation_kind: kind,
            started_at: ts,
            ended_at: None,
            status: LoopStatus::Running,
            rejection: None,
            config: None,
            messages: Vec::new(),
            turns: Vec::new(),
            usage: Usage::default(),
            metadata: meta,
            events: Vec::new(),
            next_sequence: 0,
            children_loop_ids: Vec::new(),
            child_loop_refs: Vec::new(),
            parallel_group: None,
            compaction_block: None,
        };
        proof {
            assert(crate::types::msgs_view(r.messages@) =~= seq![]);
            assert(turns_view(r.turns@) =~= seq![]);
            assert(r.events@ =~= seq![]);
            assert(strs_view(r.children_loop_ids@) =~= seq![]);
            assert(refs_view(r.child_loop_refs@) =~= seq![]);
        }
        put_loop_into(&mut self.open_loops, r);
        append_event_to(&mut self.open_loops, lid.as_str(), ev);
    }
}

/// `t` in place of the partial turn of its loop, or added.
fn put_turn_into(ts: &mut Vec<PartialTurn>, t: PartialTurn)
    ensures
        pturns_view(final(ts)@) == put_turn(pturns_view(old(ts)@), t@),
{
    let ghost before = pturns_view(ts@);
    let ghost tv = t@;
    match position_of_turn(ts, t.turn_id.loop_id.as_str()) {
        Some(i) => {
            let _old = ts.remove(i);
            ts.insert(i, t);
            assert(pturns_view(ts@) =~= before.update(i as int, tv));
        },
        None => {
            ts.push(t);
            assert(pturns_view(ts@) =~= before.push(tv));
        },
    }
}

fn is_input_message(m: &AgentMessage) -> (r: bool)
    ensures
        r == is_input(m@),
{
    match m {
        AgentMessage::Llm(lm) => match &lm.message {
            Message::Assistant { .. } => false,
            _ => true,
        },
        _ => true,
    }
}

/// The loop an otherwise unhandled event belongs to.
fn loop_of(ev: &AgentEvent) -> (r: Option<String>)
    ensures
        opt_str_view(r) == event_loop(*ev),
{
    match ev {
        AgentEvent::MessageStart { loop_id, .. } => Some(copy_string(loop_id)),
        AgentEvent::ToolExecutionStart { loop_id, .. } => Some(copy_string(loop_id)),
        AgentEvent::ToolExecutionUpdate { loop_id, .. } => Some(copy_string(loop_id)),
        AgentEvent::ProgressMessage { loop_id, .. } => if crate::strs::chars_of(loop_id.as_str()).len() > 0 {
            Some(copy_string(loop_id))
        } else {
            None
        },
        AgentEvent::InputRejected { loop_id, .. } => if crate::strs::chars_of(loop_id.as_str()).len() > 0 {
            Some(copy_string(loop_id))
        } else {
            None
        },
        AgentEvent::CompactionStarted { loop_id, .. } => Some(copy_string(loop_id)),
        AgentEvent::CompactionEnded { loop_id, .. } => Some(copy_string(loop_id)),
        _ => None,
    }
}

impl SessionRecorder {
    fn on_turn_start(&mut self, ev: AgentEvent)
        requires
            ev is TurnStart,
        ensures
            final(self)@ == recorder_step(old(self)@, ev),
    {
        let (lid, t) = match &ev {
            AgentEvent::TurnStart { loop_id, turn_index, timestamp, triggered_by } => (
                copy_string(loop_id),
                PartialTurn {
                    turn_id: TurnId { loop_id: copy_string(loop_id), turn_index: *turn_index },
                    triggered_by: *triggered_by,
                    started_at: *timestamp,
                    input_messages: Vec::new(),
                },
            ),
            _ => {
                proof {
                    assert(false);
                }
                return;
            },
        };
        assert(msgs_view(t.input_messages@) =~= seq![]);
        put_turn_into(&mut self.partial_turns, t);
        append_event_to(&mut self.open_loops, lid.as_str(), ev);
    }

    fn on_message_end(&mut self, ev: AgentEvent)
        requires
            ev is MessageEnd,
        ensures
            final(self)@ == recorder_step(old(self)@, ev),
    {
        let lid = match &ev {
            AgentEvent::MessageEnd { loop_id, message } => {
                let lid = copy_string(loop_id);
                if is_input_message(message) {
                    match position_of_turn(&self.partial_turns, lid.as_str()) {
                        Some(i) => {
                            let ghost before = pturns_view(self.partial_turns@);
                            let mut t = self.partial_turns.remove(i);
                            let ghost t0 = t@;
                            t.input_messages.push(message.clone());
                            assert(msgs_view(t.input_messages@) =~= t0.input_messages.push(message@));
                            self.partial_turns.insert(i, t);
                            assert(pturns_view(self.partial_turns@) =~= before.update(
                                i as int,
                                PartialTurnV { input_messages: before[i as int].input_messages.push(message@), ..before[i as int] },
                            ));
                        },
                        None => {},
                    }
                }
                lid
            },
            _ => {
                proof {
                    assert(false);
                }
                return;
            },
        };
        append_event_to(&mut self.open_loops, lid.as_str(), ev);
    }

    fn on_other(&mut self, ev: AgentEvent)
        requires
            !(ev is ParallelLoopStart || ev is AgentStart || ev is AgentEnd || ev is TurnStart || ev is MessageEnd
                || ev is TurnEnd || ev is ToolExecutionEnd || ev is ParallelLoopEnd),
        ensures
            final(self)@ == recorder_step(old(self)@, ev),
    {
        match &ev {
            AgentEvent::MessageUpdate { loop_id, .. } => {
                let lid = copy_string(loop_id);
                if self.config.include_streaming_events {
                    append_event_to(&mut self.open_loops, lid.as_str(), ev);
                } else {
                    skip_event_in(&mut self.open_loops, lid.as_str());
                }
            },
            _ => {
                match loop_of(&ev) {
                    Some(lid) => append_event_to(&mut self.open_loops, lid.as_str(), ev),
                    None => {},
                }
            },
        }
    }
}

/// Whether `v` holds `s`.
pub(crate) fn holds_string(v: &Vec<String>, s: &str) -> (r: bool)
    ensures
        r == strs_view(v@).contains(s@),
{
    let ghost sv = strs_view(v@);
    let mut i: usize = 0;
    while i < v.len()
        invariant
            0 <= i <= v.len(),
            sv == strs_view(v@),
            forall|j: int| 0 <= j < i ==> sv[j] != s@,
        decreases v.len() - i,
    {
        if str_eq(v[i].as_str(), s) {
            assert(sv[i as int] == s@);
            return true;
        }
        i = i + 1;
    }
    assert(!sv.contains(s@)) by {
        if sv.contains(s@) {
            let j = choose|j: int| 0 <= j < sv.len() && sv[j] == s@;
            assert(sv[j] != s@);
        }
    }
    false
}

fn add_child_to(p: &mut LoopRecord, lid: &str)
    ensures
        final(p)@ == add_child(old(p)@, lid@),
{
    if !holds_string(&p.children_loop_ids, lid) {
        let ghost before = strs_view(p.children_loop_ids@);
        p.children_loop_ids.push(lid.to_string());
        assert(strs_view(p.children_loop_ids@) =~= before.push(lid@));
    }
}

fn link_parent_of(ss: &mut Vec<Session>, ls: &mut Vec<LoopRecord>, parent: &Option<String>, sid: &str, lid: &str)
    ensures
        (sessions_view(final(ss)@), loops_view(final(ls)@)) == link_parent(
            sessions_view(old(ss)@),
            loops_view(old(ls)@),
            opt_str_view(*parent),
            sid@,
            lid@,
        ),
{
    let ghost ss0 = sessions_view(ss@);
    let ghost ls0 = loops_view(ls@);
    match parent {
        None => {},
        Some(plid) => {
            let found: Option<(usize, usize)> = match position_of_session(ss, sid) {
                Some(k) => match position_of_loop(&ss[k].loops, plid.as_str()) {
                    Some(j) => Some((k, j)),
                    None => None,
                },
                None => None,
            };
            match found {
                Some((k, j)) => {
                    let mut s = ss.remove(k);
                    let ghost sv = s@;
                    let mut p = s.loops.remove(j);
                    add_child_to(&mut p, lid);
                    let ghost pv = p@;
                    s.loops.insert(j, p);
                    assert(loops_view(s.loops@) =~= sv.loops.update(j as int, pv));
                    ss.insert(k, s);
                    assert(sessions_view(ss@) =~= ss0.update(
                        k as int,
                        SessionV { loops: sv.loops.update(j as int, add_child(sv.loops[j as int], lid@)), ..sv },
                    ));
                },
                None => {
                    match position_of_loop(ls, plid.as_str()) {
                        Some(j) => {
                            if str_eq(ls[j].session_id.as_str(), sid) {
                                let mut p = ls.remove(j);
                                add_child_to(&mut p, lid);
                                let ghost pv = p@;
                                ls.insert(j, p);
                                assert(loops_view(ls@) =~= ls0.update(j as int, pv));
                            }
                        },
                        None => {},
                    }
                },
            }
        },
    }
}

/// `r` added to the loops of its session, if that session is open.
fn file_loop_into(ss: &mut Vec<Session>, r: LoopRecord)
    ensures
        sessions_view(final(ss)@) == file_loop(sessions_view(old(ss)@), r@),
{
    let ghost ss0 = sessions_view(ss@);
    let ghost rv = r@;
    match position_of_session(ss, r.session_id.as_str()) {
        Some(k) => {
            let mut s = ss.remove(k);
            let ghost sv = s@;
            s.loops.push(r);
            assert(loops_view(s.loops@) =~= sv.loops.push(rv));
            ss.insert(k, s);
            assert(sessions_view(ss@) =~= ss0.update(k as int, SessionV { loops: sv.loops.push(rv), ..sv }));
        },
        None => {},
    }
}

/// The configuration snapshot of the first assistant message of `ms`.
fn snapshot_from(ms: &[AgentMessage], lid: &str) -> (r: Option<LoopConfigSnapshot>)
    ensures
        opt_config_view(r) == snapshot_of(msgs_view(ms@), lid@),
{
    let r = extract_config_snapshot(ms, lid);
    proof {
        if r is Some {
            assert(opt_str_view(r->0.config_id) == config_of_loop(lid@));
        }
    }
    r
}

impl SessionRecorder {
    fn on_agent_end(&mut self, ev: AgentEvent)
        requires
            ev is AgentEnd,
        ensures
            final(self)@ == recorder_step(old(self)@, ev),
    {
        let (lid, msgs, usage, ts, rej) = match &ev {
            AgentEvent::AgentEnd { loop_id, messages, usage, timestamp, rejection } => (
                copy_string(loop_id),
                crate::types::clone_messages(messages),
                *usage,
                *timestamp,
                crate::types::clone_opt_string(rejection),
            ),
            _ => {
                proof {
                    assert(false);
                }
                return;
            },
        };
        append_event_to(&mut self.open_loops, lid.as_str(), ev);
        let ghost pts0 = pturns_view(self.partial_turns@);
        match position_of_turn(&self.partial_turns, lid.as_str()) {
            Some(i) => {
                let _t = self.partial_turns.remove(i);
                assert(pturns_view(self.partial_turns@) =~= pts0.remove(i as int));
            },
            None => {},
        }
        let ghost ls1 = loops_view(self.open_loops@);
        match position_of_loop(&self.open_loops, lid.as_str()) {
            None => {},
            Some(i) => {
                let mut r = self.open_loops.remove(i);
                assert(loops_view(self.open_loops@) =~= ls1.remove(i as int));
                let ghost r0 = r@;
                r.ended_at = Some(ts);
                r.status = if rej.is_some() { LoopStatus::Rejected } else { LoopStatus::Completed };
                if r.config.is_none() {
                    r.config = snapshot_from(msgs.as_slice(), lid.as_str());
                }
                r.rejection = rej;
                r.messages = msgs;
                r.usage = usage;
                assert(r@ == closed_loop(r0, lid@, r.messages@.map_values(|m: AgentMessage| m@), usage, ts, opt_str_view(r.rejection)));
                link_parent_of(&mut self.open_sessions, &mut self.open_loops, &r.parent_loop_id, r.session_id.as_str(), lid.as_str());
                file_loop_into(&mut self.open_sessions, r);
            },
        }
    }
}

/// The tool results of turn `tid`, as messages of that turn.
fn turn_results(results: &Vec<Message>, tid: &TurnId) -> (r: Vec<AgentMessage>)
    ensures
        msgs_view(r@) == results@.map_values(|m: Message| m@).map_values(|m: MessageV| tool_result_message(m, tid@)),
{
    let ghost rv = results@.map_values(|m: Message| m@).map_values(|m: MessageV| tool_result_message(m, tid@));
    let mut out: Vec<AgentMessage> = Vec::new();
    let mut k: usize = 0;
    while k < results.len()
        invariant
            0 <= k <= results.len(),
            rv == results@.map_values(|m: Message| m@).map_values(|m: MessageV| tool_result_message(m, tid@)),
            msgs_view(out@) == rv.take(k as int),
        decreases results.len() - k,
    {
        let tags: Vec<String> = Vec::new();
        assert(strs_view(tags@) =~= seq![]);
        let m = AgentMessage::Llm(LlmMessage {
            message: results[k].clone(),
            turn_id: Some(tid.clone()),
            node_id: None,
            parent_id: None,
            tags,
        });
        let ghost before = msgs_view(out@);
        out.push(m);
        assert(msgs_view(out@) =~= before.push(m@));
        assert(rv.take(k + 1) =~= rv.take(k as int).push(rv[k as int]));
        k = k + 1;
    }
    assert(rv.take(results.len() as int) =~= rv);
    out
}

/// Reads the open loop's configuration from `m` when it has none.
fn set_config_of(ls: &mut Vec<LoopRecord>, lid: &str, m: &AgentMessage)
    ensures
        loops_view(final(ls)@) == set_config_from(loops_view(old(ls)@), lid@, m@),
{
    let ghost ls0 = loops_view(ls@);
    match position_of_loop(ls, lid) {
        Some(j) => {
            if ls[j].config.is_none() {
                let mut one: Vec<AgentMessage> = Vec::new();
                one.push(m.clone());
                assert(msgs_view(one@) =~= seq![m@]);
                let c = snapshot_from(one.as_slice(), lid);
                let mut r = ls.remove(j);
                r.config = c;
                let ghost rv = r@;
                ls.insert(j, r);
                assert(loops_view(ls@) =~= ls0.update(j as int, rv));
            }
        },
        None => {},
    }
}

impl SessionRecorder {
    fn on_turn_end(&mut self, ev: AgentEvent)
        requires
            ev is TurnEnd,
        ensures
            final(self)@ == recorder_step(old(self)@, ev),
    {
        let ghost s0 = self@;
        let ghost pts0 = pturns_view(self.partial_turns@);
        let (lid, m, turn) = match &ev {
            AgentEvent::TurnEnd { loop_id, message, usage, timestamp, tool_results } => {
                let lid = copy_string(loop_id);
                let turn = match position_of_turn(&self.partial_turns, lid.as_str()) {
                    Some(i) => {
                        let pt = self.partial_turns.remove(i);
                        assert(pturns_view(self.partial_turns@) =~= pts0.remove(i as int));
                        let results = turn_results(tool_results, &pt.turn_id);
                        let t = Turn {
                            turn_id: pt.turn_id,
                            triggered_by: pt.triggered_by,
                            usage: *usage,
                            input_messages: pt.input_messages,
                            output_message: message.clone(),
                            tool_results: results,
                            started_at: pt.started_at,
                            ended_at: *timestamp,
                        };
                        assert(t@ == finished_turn(pts0[i as int], *usage, message@, tool_results@.map_values(|m: Message| m@), *timestamp));
                        Some(t)
                    },
                    None => None,
                };
                (lid, message.clone(), turn)
            },
            _ => {
                proof {
                    assert(false);
                }
                return;
            },
        };
        append_event_to(&mut self.open_loops, lid.as_str(), ev);
        match turn {
            Some(t) => {
                let ghost ls1 = loops_view(self.open_loops@);
                match position_of_loop(&self.open_loops, lid.as_str()) {
                    Some(j) => {
                        let mut r = self.open_loops.remove(j);
                        let ghost r0 = r@;
                        let ghost tv = t@;
                        r.turns.push(t);
                        assert(turns_view(r.turns@) =~= r0.turns.push(tv));
                        let ghost rv = r@;
                        self.open_loops.insert(j, r);
                        assert(loops_view(self.open_loops@) =~= ls1.update(j as int, rv));
                    },
                    None => {},
                }
            },
            None => {},
        }
        set_config_of(&mut self.open_loops, lid.as_str(), &m);
    }
}

fn enrich_at(ss: &mut Vec<Session>, k: usize, psid: &String, plid: &String, tcid: &String, tn: &String)
    requires
        k < old(ss).len(),
    ensures
        sessions_view(final(ss)@) == sessions_view(old(ss)@).update(
            k as int,
            enrich(sessions_view(old(ss)@)[k as int], psid@, plid@, tcid@, tn@),
        ),
{
    let ghost ss0 = sessions_view(ss@);
    let mut s = ss.remove(k);
    let missing = match &s.parent_spawn_ref {
        Some(sr) => crate::strs::chars_of(sr.tool_call_id.as_str()).len() == 0,
        None => false,
    };
    if missing {
        s.parent_spawn_ref = Some(SpawnRef {
            parent_session_id: copy_string(psid),
            parent_loop_id: copy_string(plid),
            tool_call_id: copy_string(tcid),
            tool_name: copy_string(tn),
        });
    }
    let ghost sv = s@;
    ss.insert(k, s);
    assert(sessions_view(ss@) =~= ss0.update(k as int, sv));
}

impl SessionRecorder {
    fn on_tool_end(&mut self, ev: AgentEvent)
        requires
            ev is ToolExecutionEnd,
        ensures
            final(self)@ == recorder_step(old(self)@, ev),
    {
        let (lid, tcid, tn, child) = match &ev {
            AgentEvent::ToolExecutionEnd { loop_id, tool_call_id, tool_name, result, .. } => (
                copy_string(loop_id),
                copy_string(tool_call_id),
                copy_string(tool_name),
                crate::types::clone_opt_string(&result.child_loop_id),
            ),
            _ => {
                proof {
                    assert(false);
                }
                return;
            },
        };
        append_event_to(&mut self.open_loops, lid.as_str(), ev);
        match child {
            None => {},
            Some(c) => {
                let ghost ls1 = loops_view(self.open_loops@);
                match position_of_loop(&self.open_loops, lid.as_str()) {
                    None => {},
                    Some(j) => {
                        let csid = session_id_from_loop_id(c.as_str());
                        let psid = copy_string(&self.open_loops[j].session_id);
                        let mut r = self.open_loops.remove(j);
                        let ghost r0 = r@;
                        let rf = ChildLoopRef {
                            tool_call_id: copy_string(&tcid),
                            tool_name: copy_string(&tn),
                            child_loop_id: c,
                            child_session_id: copy_string(&csid),
                        };
                        let ghost rfv = rf@;
                        r.child_loop_refs.push(rf);
                        assert(refs_view(r.child_loop_refs@) =~= r0.child_loop_refs.push(rfv));
                        let ghost rv = r@;
                        self.open_loops.insert(j, r);
                        assert(loops_view(self.open_loops@) =~= ls1.update(j as int, rv));
                        match position_of_session(&self.open_sessions, csid.as_str()) {
                            Some(k) => enrich_at(&mut self.open_sessions, k, &psid, &lid, &tcid, &tn),
                            None => match position_of_session(&self.completed, csid.as_str()) {
                                Some(k) => enrich_at(&mut self.completed, k, &psid, &lid, &tcid, &tn),
                                None => {},
                            },
                        }
                    },
                }
            },
        }
    }
}

fn make_group(all: &Vec<String>, sel: &String, idx: usize, usage: Usage, lid: &String) -> (g: ParallelGroupRecord)
    ensures
        g@ == group_for(strs_view(all@), sel@, idx, usage, lid@),
{
    ParallelGroupRecord {
        all_loop_ids: crate::types::clone_strings(all),
        selected_loop_id: copy_string(sel),
        selected_config_index: idx,
        evaluation_usage: usage,
        is_selected: str_eq(lid.as_str(), sel.as_str()),
    }
}

/// Gives the first loop `lid` of every session of `ss` the group record of that branch.
fn set_group_in_each(ss: &mut Vec<Session>, lid: &String, all: &Vec<String>, sel: &String, idx: usize, usage: Usage)
    ensures
        sessions_view(final(ss)@) == sessions_view(old(ss)@).map_values(
            |x: SessionV| set_group_in(x, lid@, group_for(strs_view(all@), sel@, idx, usage, lid@)),
        ),
{
    let ghost g = group_for(strs_view(all@), sel@, idx, usage, lid@);
    let ghost ss0 = sessions_view(ss@);
    let ghost target = ss0.map_values(|x: SessionV| set_group_in(x, lid@, g));
    let mut k: usize = 0;
    while k < ss.len()
        invariant
            0 <= k <= ss.len(),
            ss.len() == ss0.len(),
            g == group_for(strs_view(all@), sel@, idx, usage, lid@),
            target == ss0.map_values(|x: SessionV| set_group_in(x, lid@, g)),
            forall|j: int| 0 <= j < k ==> sessions_view(ss@)[j] == target[j],
            forall|j: int| k <= j < ss.len() ==> sessions_view(ss@)[j] == ss0[j],
        decreases ss.len() - k,
    {
        let ghost before = sessions_view(ss@);
        let mut s = ss.remove(k);
        let ghost sv = s@;
        match position_of_loop(&s.loops, lid.as_str()) {
            Some(j) => {
                let mut r = s.loops.remove(j);
                r.parallel_group = Some(make_group(all, sel, idx, usage, lid));
                let ghost rv = r@;
                s.loops.insert(j, r);
                assert(loops_view(s.loops@) =~= sv.loops.update(j as int, rv));
            },
            None => {},
        }
        assert(s@ == set_group_in(sv, lid@, g));
        ss.insert(k, s);
        assert(sessions_view(ss@) =~= before.update(k as int, set_group_in(sv, lid@, g)));
        k = k + 1;
    }
    assert(sessions_view(ss@) =~= target);
}

impl SessionRecorder {
    /// Gives branch `lid` its group record everywhere it is recorded.
    fn set_group_everywhere(&mut self, lid: &String, all: &Vec<String>, sel: &String, idx: usize, usage: Usage)
        ensures
            final(self)@ == set_group(old(self)@, lid@, group_for(strs_view(all@), sel@, idx, usage, lid@)),
    {
        let ghost ls0 = loops_view(self.open_loops@);
        match position_of_loop(&self.open_loops, lid.as_str()) {
            Some(j) => {
                let mut r = self.open_loops.remove(j);
                r.parallel_group = Some(make_group(all, sel, idx, usage, lid));
                let ghost rv = r@;
                self.open_loops.insert(j, r);
                assert(loops_view(self.open_loops@) =~= ls0.update(j as int, rv));
            },
            None => {},
        }
        set_group_in_each(&mut self.open_sessions, lid, all, sel, idx, usage);
        set_group_in_each(&mut self.completed, lid, all, sel, idx, usage);
    }

    fn on_parallel_end(&mut self, ev: AgentEvent)
        requires
            ev is ParallelLoopEnd,
        ensures
            final(self)@ == recorder_step(old(self)@, ev),
    {
        let (sel, idx, usage) = match &ev {
            AgentEvent::ParallelLoopEnd { selected_loop_id, selected_config_index, evaluation_usage, .. } => (
                copy_string(selected_loop_id),
                *selected_config_index,
                *evaluation_usage,
            ),
            _ => {
                proof {
                    assert(false);
                }
                return;
            },
        };
        let ghost s0 = self@;
        let all: Vec<String> = match position_of_group(&self.partial_groups, sel.as_str()) {
            Some(i) => crate::types::clone_strings(&self.partial_groups[i].all_loop_ids),
            None => {
                let mut v: Vec<String> = Vec::new();
                v.push(copy_string(&sel));
                assert(strs_view(v@) =~= seq![sel@]);
                v
            },
        };
        let ghost av = strs_view(all@);
        assert(av == match find_group(s0.groups, sel@) { Some(i) => s0.groups[i].1, None => seq![sel@] });
        let mut k: usize = 0;
        assert(av.skip(0) =~= av);
        while k < all.len()
            invariant
                0 <= k <= all.len(),
                av == strs_view(all@),
                set_groups(s0, av, av, sel@, idx, usage) == set_groups(self@, av.skip(k as int), av, sel@, idx, usage),
                self@.groups == s0.groups,
            decreases all.len() - k,
        {
            assert(av.skip(k as int)[0] == all@[k as int]@);
            assert(av.skip(k as int).drop_first() =~= av.skip(k + 1));
            self.set_group_everywhere(&all[k], &all, &sel, idx, usage);
            k = k + 1;
        }
        assert(av.skip(all.len() as int) =~= seq![]);
        let ghost s2 = self@;
        let mut k: usize = 0;
        while k < all.len()
            invariant
                0 <= k <= all.len(),
                av == strs_view(all@),
                drop_groups(s2.groups, av) == drop_groups(groups_view(self.partial_groups@), av.skip(k as int)),
                self.config.include_streaming_events == s2.include_streaming,
                sessions_view(self.completed@) == s2.completed,
                sessions_view(self.open_sessions@) == s2.open_sessions,
                loops_view(self.open_loops@) == s2.open_loops,
                pturns_view(self.partial_turns@) == s2.partial_turns,
            decreases all.len() - k,
        {
            assert(av.skip(k as int)[0] == all@[k as int]@);
            assert(av.skip(k as int).drop_first() =~= av.skip(k + 1));
            let ghost gv = groups_view(self.partial_groups@);
            match position_of_group(&self.partial_groups, all[k].as_str()) {
                Some(i) => {
                    let _g = self.partial_groups.remove(i);
                    assert(groups_view(self.partial_groups@) =~= gv.remove(i as int));
                },
                None => {},
            }
            k = k + 1;
        }
        assert(av.skip(all.len() as int) =~= seq![]);
    }
}

/// The sessions after filing each loop of `ls` into its session, in order.
pub open spec fn file_all(ss: Seq<SessionV>, ls: Seq<LoopRecordV>) -> Seq<SessionV>
    decreases ls.len(),
{
    if ls.len() == 0 {
        ss
    } else {
        file_all(file_loop(ss, ls[0]), ls.drop_first())
    }
}

/// `r` marked aborted.
pub open spec fn aborted(r: LoopRecordV) -> LoopRecordV {
    LoopRecordV { status: LoopStatus::Aborted, ..r }
}

/// What `flush` does: partial turns dropped, every open loop aborted and filed
/// into its session (in the order they opened), and every open session
/// completed (in the order they opened).
pub open spec fn flushed(s: RecorderV) -> RecorderV {
    RecorderV {
        completed: s.completed + file_all(s.open_sessions, s.open_loops.map_values(|r: LoopRecordV| aborted(r))),
        open_sessions: seq![],
        open_loops: seq![],
        partial_turns: seq![],
        ..s
    }
}

/// Some open loop belongs to session `sid`.
pub open spec fn has_open_loop(ls: Seq<LoopRecordV>, sid: Seq<char>) -> bool {
    exists|j: int| 0 <= j < ls.len() && #[trigger] ls[j].session_id == sid
}

/// The sessions of `ss` for which `busy` is `b`, in order.
pub open spec fn sessions_where(ss: Seq<SessionV>, ls: Seq<LoopRecordV>, b: bool) -> Seq<SessionV>
    decreases ss.len(),
{
    if ss.len() == 0 {
        seq![]
    } else {
        let rest = sessions_where(ss.drop_last(), ls, b);
        if has_open_loop(ls, ss.last().session_id) == b {
            rest.push(ss.last())
        } else {
            rest
        }
    }
}

fn session_is_busy(ls: &Vec<LoopRecord>, sid: &str) -> (r: bool)
    ensures
        r == has_open_loop(loops_view(ls@), sid@),
{
    let ghost lv = loops_view(ls@);
    let mut j: usize = 0;
    while j < ls.len()
        invariant
            0 <= j <= ls.len(),
            lv == loops_view(ls@),
            forall|i: int| 0 <= i < j ==> lv[i].session_id != sid@,
        decreases ls.len() - j,
    {
        if str_eq(ls[j].session_id.as_str(), sid) {
            assert(lv[j as int].session_id == sid@);
            return true;
        }
        j = j + 1;
    }
    false
}

impl SessionRecorder {
    /// Records one event.
    pub fn on_event(&mut self, event: AgentEvent)
        ensures
            final(self)@ == recorder_step(old(self)@, event),
    {
        let tag: u8 = match &event {
            AgentEvent::ParallelLoopStart { .. } => 0,
            AgentEvent::AgentStart { .. } => 1,
            AgentEvent::AgentEnd { .. } => 2,
            AgentEvent::TurnStart { .. } => 3,
            AgentEvent::MessageEnd { .. } => 4,
            AgentEvent::TurnEnd { .. } => 5,
            AgentEvent::ToolExecutionEnd { .. } => 6,
            AgentEvent::ParallelLoopEnd { .. } => 7,
            _ => 8,
        };
        if tag == 0 {
            match &event {
                AgentEvent::ParallelLoopStart { loop_ids, .. } => self.on_parallel_start(loop_ids),
                _ => {},
            }
        } else if tag == 1 {
            self.on_agent_start(event);
        } else if tag == 2 {
            self.on_agent_end(event);
        } else if tag == 3 {
            self.on_turn_start(event);
        } else if tag == 4 {
            self.on_message_end(event);
        } else if tag == 5 {
            self.on_turn_end(event);
        } else if tag == 6 {
            self.on_tool_end(event);
        } else if tag == 7 {
            self.on_parallel_end(event);
        } else {
            self.on_other(event);
        }
    }

    /// Aborts every open loop, files it into its session, and completes every
    /// open session. Partial turns are dropped.
    pub fn flush(&mut self)
        ensures
            final(self)@ == flushed(old(self)@),
    {
        let ghost s0 = self@;
        let ghost aborted_all = s0.open_loops.map_values(|r: LoopRecordV| aborted(r));
        self.partial_turns = Vec::new();
        assert(pturns_view(self.partial_turns@) =~= seq![]);
        let mut loops: Vec<LoopRecord> = Vec::new();
        std::mem::swap(&mut loops, &mut self.open_loops);
        assert(loops_view(self.open_loops@) =~= seq![]);
        let ghost mut k: int = 0;
        assert(aborted_all.skip(0) =~= aborted_all);
        while loops.len() > 0
            invariant
                aborted_all == s0.open_loops.map_values(|r: LoopRecordV| aborted(r)),
                0 <= k,
                loops_view(loops@).map_values(|r: LoopRecordV| aborted(r)) == aborted_all.skip(k),
                k + loops.len() == aborted_all.len(),
                file_all(s0.open_sessions, aborted_all) == file_all(sessions_view(self.open_sessions@), aborted_all.skip(k)),
                self.config == old(self).config,
                self.completed == old(self).completed,
                self.partial_groups == old(self).partial_groups,
                pturns_view(self.partial_turns@) == Seq::<PartialTurnV>::empty(),
                loops_view(self.open_loops@) == Seq::<LoopRecordV>::empty(),
            decreases loops.len(),
        {
            let ghost lv = loops_view(loops@);
            let mut r = loops.remove(0);
            assert(loops_view(loops@) =~= lv.drop_first());
            r.status = LoopStatus::Aborted;
            assert(aborted_all.skip(k)[0] == r@);
            assert(aborted_all.skip(k).drop_first() =~= aborted_all.skip(k + 1));
            assert(loops_view(loops@).map_values(|r: LoopRecordV| aborted(r)) =~= aborted_all.skip(k + 1));
            file_loop_into(&mut self.open_sessions, r);
            proof {
                k = k + 1;
            }
        }
        assert(aborted_all.skip(k) =~= seq![]);
        let mut open: Vec<Session> = Vec::new();
        std::mem::swap(&mut open, &mut self.open_sessions);
        let ghost cv = sessions_view(self.completed@);
        let ghost ov = sessions_view(open@);
        self.completed.append(&mut open);
        assert(sessions_view(self.completed@) =~= cv + ov);
        assert(sessions_view(self.open_sessions@) =~= seq![]);
    }

    /// Completes every open session none of whose loops is open, and says how
    /// many there were. Open loops are left running.
    pub fn checkpoint(&mut self) -> (n: usize)
        ensures
            ({
                let s = old(self)@;
                let idle = sessions_where(s.open_sessions, s.open_loops, false);
                &&& final(self)@ == RecorderV {
                    completed: s.completed + idle,
                    open_sessions: sessions_where(s.open_sessions, s.open_loops, true),
                    ..s
                }
                &&& n == idle.len()
            }),
    {
        let ghost s0 = self@;
        let mut open: Vec<Session> = Vec::new();
        std::mem::swap(&mut open, &mut self.open_sessions);
        let ghost ov = sessions_view(open@);
        let mut busy: Vec<Session> = Vec::new();
        let mut idle: Vec<Session> = Vec::new();
        let ghost mut k: int = 0;
        assert(ov.skip(0) =~= ov);
        assert(ov.take(0) =~= seq![]);
        assert(sessions_view(busy@) =~= seq![]);
        assert(sessions_view(idle@) =~= seq![]);
        while open.len() > 0
            invariant
                0 <= k,
                ov == s0.open_sessions,
                k + open.len() == ov.len(),
                sessions_view(open@) == ov.skip(k),
                sessions_view(busy@) == sessions_where(ov.take(k), s0.open_loops, true),
                sessions_view(idle@) == sessions_where(ov.take(k), s0.open_loops, false),
                loops_view(self.open_loops@) == s0.open_loops,
                self.config == old(self).config,
                self.completed == old(self).completed,
                self.partial_groups == old(self).partial_groups,
                self.partial_turns == old(self).partial_turns,
            decreases open.len(),
        {
            let ghost bv = sessions_view(busy@);
            let ghost iv = sessions_view(idle@);
            let ghost op = open@;
            let s = open.remove(0);
            assert(sessions_view(op)[0] == s@);
            assert(ov.skip(k)[0] == ov[k]);
            assert forall|j: int| 0 <= j < open@.len() implies sessions_view(open@)[j] == ov.skip(k + 1)[j] by {
                assert(open@[j] == op[j + 1]);
                assert(sessions_view(op)[j + 1] == ov.skip(k)[j + 1]);
            }
            assert(sessions_view(open@) =~= ov.skip(k + 1));
            assert(ov.take(k + 1).drop_last() =~= ov.take(k));
            assert(ov.take(k + 1).last() == s@);
            let ghost sv = s@;
            if session_is_busy(&self.open_loops, s.session_id.as_str()) {
                busy.push(s);
                assert(sessions_view(busy@) =~= bv.push(sv));
            } else {
                idle.push(s);
                assert(sessions_view(idle@) =~= iv.push(sv));
            }
            proof {
                k = k + 1;
            }
        }
        assert(ov.take(k) =~= ov);
        let n = idle.len();
        let ghost cv = sessions_view(self.completed@);
        let ghost iv = sessions_view(idle@);
        self.completed.append(&mut idle);
        assert(sessions_view(self.completed@) =~= cv + iv);
        self.open_sessions = busy;
        n
    }

    /// Takes the completed sessions out of the recorder.
    pub fn drain_completed(&mut self) -> (r: Vec<Session>)
        ensures
            sessions_view(r@) == old(self)@.completed,
            final(self)@ == (RecorderV { completed: seq![], ..old(self)@ }),
    {
        let mut r: Vec<Session> = Vec::new();
        std::mem::swap(&mut r, &mut self.completed);
        assert(sessions_view(self.completed@) =~= seq![]);
        r
    }

    /// Every session: the completed ones, then the open ones.
    pub fn sessions(&self) -> (r: Vec<&Session>)
        ensures
            r@.map_values(|x: &Session| x@) == self@.completed + self@.open_sessions,
    {
        let mut r: Vec<&Session> = Vec::new();
        let mut k: usize = 0;
        while k < self.completed.len()
            invariant
                0 <= k <= self.completed.len(),
                r@.map_values(|x: &Session| x@) == sessions_view(self.completed@).take(k as int),
            decreases self.completed.len() - k,
        {
            let ghost before = r@.map_values(|x: &Session| x@);
            r.push(&self.completed[k]);
            assert(r@.map_values(|x: &Session| x@) =~= before.push(self.completed@[k as int]@));
            assert(sessions_view(self.completed@).take(k + 1) =~= sessions_view(self.completed@).take(k as int).push(
                self.completed@[k as int]@,
            ));
            k = k + 1;
        }
        let ghost cv = sessions_view(self.completed@);
        assert(cv.take(self.completed.len() as int) =~= cv);
        let mut k: usize = 0;
        while k < self.open_sessions.len()
            invariant
                0 <= k <= self.open_sessions.len(),
                cv == sessions_view(self.completed@),
                r@.map_values(|x: &Session| x@) == cv + sessions_view(self.open_sessions@).take(k as int),
            decreases self.open_sessions.len() - k,
        {
            let ghost before = r@.map_values(|x: &Session| x@);
            r.push(&self.open_sessions[k]);
            assert(r@.map_values(|x: &Session| x@) =~= before.push(self.open_sessions@[k as int]@));
            assert(sessions_view(self.open_sessions@).take(k + 1) =~= sessions_view(self.open_sessions@).take(k as int).push(
                self.open_sessions@[k as int]@,
            ));
            k = k + 1;
        }
        assert(sessions_view(self.open_sessions@).take(self.open_sessions.len() as int) =~= sessions_view(self.open_sessions@));
        r
    }

    /// The session `id`: the first completed one, else the open one.
    pub fn get_session(&self, id: &str) -> (r: Option<&Session>)
        ensures
            match r {
                Some(x) => match find_session(self@.completed, id@) {
                    Some(k) => x@ == self@.completed[k],
                    None => find_session(self@.open_sessions, id@) matches Some(k) && x@ == self@.open_sessions[k],
                },
                None => find_session(self@.completed, id@) is None && find_session(self@.open_sessions, id@) is None,
            },
    {
        match position_of_session(&self.completed, id) {
            Some(k) => Some(&self.completed[k]),
            None => match position_of_session(&self.open_sessions, id) {
                Some(k) => Some(&self.open_sessions[k]),
                None => None,
            },
        }
    }

    /// The open loop `id`.
    pub fn current_loop(&self, id: &str) -> (r: Option<&LoopRecord>)
        ensures
            match r {
                Some(x) => find_loop(self@.open_loops, id@) matches Some(k) && x@ == self@.open_loops[k],
                None => find_loop(self@.open_loops, id@) is None,
            },
    {
        match position_of_loop(&self.open_loops, id) {
            Some(k) => Some(&self.open_loops[k]),
            None => None,
        }
    }
}

// ---------------------------------------------------------------------------
// Laws
// ---------------------------------------------------------------------------

/// Two loop lists with the same ids at the same places.
pub open spec fn same_loop_ids(a: Seq<LoopRecordV>, b: Seq<LoopRecordV>) -> bool {
    a.len() == b.len() && forall|j: int| 0 <= j < a.len() ==> #[trigger] a[j].loop_id == b[j].loop_id
}

/// Two session lists with the same ids at the same places.
pub open spec fn same_session_ids(a: Seq<SessionV>, b: Seq<SessionV>) -> bool {
    a.len() == b.len() && forall|j: int| 0 <= j < a.len() ==> #[trigger] a[j].session_id == b[j].session_id
}

pub proof fn lemma_same_loop_ids_find(a: Seq<LoopRecordV>, b: Seq<LoopRecordV>, id: Seq<char>, i: int)
    requires
        same_loop_ids(a, b),
    ensures
        find_loop_from(a, id, i) == find_loop_from(b, id, i),
    decreases a.len() - i,
{
    if 0 <= i < a.len() {
        assert(a[i].loop_id == b[i].loop_id);
        lemma_same_loop_ids_find(a, b, id, i + 1);
    }
}

proof fn lemma_same_session_ids_find(a: Seq<SessionV>, b: Seq<SessionV>, id: Seq<char>, i: int)
    requires
        same_session_ids(a, b),
    ensures
        find_session_from(a, id, i) == find_session_from(b, id, i),
    decreases a.len() - i,
{
    if 0 <= i < a.len() {
        assert(a[i].session_id == b[i].session_id);
        lemma_same_session_ids_find(a, b, id, i + 1);
    }
}

proof fn lemma_find_session_push(ss: Seq<SessionV>, x: SessionV)
    requires
        find_session(ss, x.session_id) is None,
    ensures
        find_session(ss.push(x), x.session_id) == Some(ss.len() as int),
{
    lemma_find_session_from(ss, x.session_id, 0);
    lemma_find_session_from(ss.push(x), x.session_id, 0);
    let r = find_session(ss.push(x), x.session_id);
    if r != Some(ss.len() as int) {
        match r {
            Some(k) => {
                assert(k < ss.len());
                assert(ss.push(x)[k] == ss[k]);
            },
            None => {
                assert(ss.push(x)[ss.len() as int] == x);
            },
        }
    }
}

proof fn lemma_find_loop_push(ls: Seq<LoopRecordV>, x: LoopRecordV)
    requires
        find_loop(ls, x.loop_id) is None,
    ensures
        find_loop(ls.push(x), x.loop_id) == Some(ls.len() as int),
{
    lemma_find_loop_from(ls, x.loop_id, 0);
    lemma_find_loop_from(ls.push(x), x.loop_id, 0);
    let r = find_loop(ls.push(x), x.loop_id);
    if r != Some(ls.len() as int) {
        match r {
            Some(k) => {
                assert(k < ls.len());
                assert(ls.push(x)[k] == ls[k]);
            },
            None => {
                assert(ls.push(x)[ls.len() as int] == x);
            },
        }
    }
}

/// After an `AgentStart`, the session it names is open and the loop it names
/// is open in that session.
proof fn lemma_after_start(s: RecorderV, ev: AgentEvent)
    requires
        ev is AgentStart,
    ensures
        ({
            let s1 = recorder_step(s, ev);
            &&& find_session(s1.open_sessions, ev->AgentStart_session_id@) is Some
            &&& find_loop(s1.open_loops, ev->AgentStart_loop_id@) matches Some(i)
                && s1.open_loops[i].session_id == ev->AgentStart_session_id@
        }),
{
    match ev {
        AgentEvent::AgentStart { agent_id, session_id, loop_id, parent_loop_id, continuation_kind, timestamp, metadata } => {
            let sid = session_id@;
            let lid = loop_id@;
            let ss = reopen(s.completed, s.open_sessions, sid).1;
            match find_session(ss, sid) {
                Some(k) => {
                    lemma_find_session_from(ss, sid, 0);
                    let ss1 = ss.update(k, touch_session(ss[k], timestamp, opt_str_view(parent_loop_id)));
                    assert(same_session_ids(ss, ss1));
                    lemma_same_session_ids_find(ss, ss1, sid, 0);
                },
                None => {
                    lemma_find_session_push(ss, touch_session(new_session(sid, agent_id@, timestamp), timestamp, opt_str_view(parent_loop_id)));
                },
            }
            let r = new_loop(lid, sid, agent_id@, opt_str_view(parent_loop_id), continuation_kind, timestamp, opt_str_view(metadata));
            let ls1 = put_loop(s.open_loops, r);
            match find_loop(s.open_loops, lid) {
                Some(i) => {
                    lemma_find_loop_from(s.open_loops, lid, 0);
                    assert(same_loop_ids(s.open_loops, ls1));
                    lemma_same_loop_ids_find(s.open_loops, ls1, lid, 0);
                },
                None => {
                    lemma_find_loop_push(s.open_loops, r);
                },
            }
            let i = find_loop(ls1, lid)->0;
            let ls2 = append_event(ls1, lid, ev);
            assert(ls2 == ls1.update(i, with_event(ls1[i], ev)));
            assert(same_loop_ids(ls1, ls2));
            lemma_same_loop_ids_find(ls1, ls2, lid, 0);
        },
        _ => {},
    }
}

proof fn lemma_append_keeps_ids(ls: Seq<LoopRecordV>, id: Seq<char>, ev: AgentEvent)
    ensures
        same_loop_ids(ls, append_event(ls, id, ev)),
        forall|j: int| 0 <= j < ls.len() ==> #[trigger] append_event(ls, id, ev)[j].session_id == ls[j].session_id,
{
    match find_loop(ls, id) {
        Some(i) => {
            lemma_find_loop_from(ls, id, 0);
        },
        None => {},
    }
}

proof fn lemma_link_keeps_session_ids(
    ss: Seq<SessionV>,
    ls: Seq<LoopRecordV>,
    parent: Option<Seq<char>>,
    sid: Seq<char>,
    lid: Seq<char>,
)
    ensures
        same_session_ids(ss, link_parent(ss, ls, parent, sid, lid).0),
{
    match parent {
        None => {},
        Some(plid) => match find_session(ss, sid) {
            Some(k) => {
                lemma_find_session_from(ss, sid, 0);
            },
            None => {},
        },
    }
}

/// A loop that starts and then ends is filed, last, into the session it
/// started in, completed or rejected as its end says.
pub proof fn law_started_loop_is_filed_on_end(s: RecorderV, start: AgentEvent, end: AgentEvent)
    requires
        start is AgentStart,
        end is AgentEnd,
        end->AgentEnd_loop_id@ == start->AgentStart_loop_id@,
    ensures
        ({
            let s2 = recorder_step(recorder_step(s, start), end);
            find_session(s2.open_sessions, start->AgentStart_session_id@) matches Some(k)
                && s2.open_sessions[k].loops.len() > 0
                && s2.open_sessions[k].loops.last().loop_id == start->AgentStart_loop_id@
                && s2.open_sessions[k].loops.last().status == (if end->AgentEnd_rejection is Some {
                    LoopStatus::Rejected
                } else {
                    LoopStatus::Completed
                })
        }),
{
    lemma_after_start(s, start);
    let s1 = recorder_step(s, start);
    let sid = start->AgentStart_session_id@;
    let lid = start->AgentStart_loop_id@;
    match end {
        AgentEvent::AgentEnd { loop_id, messages, usage, timestamp, rejection } => {
            let ls1 = append_event(s1.open_loops, lid, end);
            lemma_append_keeps_ids(s1.open_loops, lid, end);
            lemma_same_loop_ids_find(s1.open_loops, ls1, lid, 0);
            let i = find_loop(ls1, lid)->0;
            lemma_find_loop_from(ls1, lid, 0);
            let r = closed_loop(ls1[i], lid, msgs_view(messages@), usage, timestamp, opt_str_view(rejection));
            assert(r.session_id == sid);
            let linked = link_parent(s1.open_sessions, ls1.remove(i), r.parent_loop_id, r.session_id, lid);
            lemma_link_keeps_session_ids(s1.open_sessions, ls1.remove(i), r.parent_loop_id, r.session_id, lid);
            lemma_same_session_ids_find(s1.open_sessions, linked.0, sid, 0);
            let k = find_session(linked.0, sid)->0;
            lemma_find_session_from(linked.0, sid, 0);
            let s2 = recorder_step(s1, end);
            assert(s2.open_sessions == file_loop(linked.0, r));
            assert(s2.open_sessions[k].loops == linked.0[k].loops.push(r));
            assert(same_session_ids(linked.0, s2.open_sessions));
            lemma_same_session_ids_find(linked.0, s2.open_sessions, sid, 0);
            assert(s2.open_sessions[k].loops.last() == r);
            assert(r.loop_id == lid);
        },
        _ => {},
    }
}

/// The recorded events of `r` carry increasing sequence numbers, all below
/// the loop's next sequence number.
pub open spec fn numbered(r: LoopRecordV) -> bool {
    &&& forall|i: int, j: int| 0 <= i < j < r.events.len() ==> (#[trigger] r.events[i]).sequence < (#[trigger] r.events[j]).sequence
    &&& forall|i: int| 0 <= i < r.events.len() ==> (#[trigger] r.events[i]).sequence < r.next_sequence
}

pub open spec fn loops_numbered(ls: Seq<LoopRecordV>) -> bool {
    forall|j: int| 0 <= j < ls.len() ==> numbered(#[trigger] ls[j])
}

/// No open loop has used up the `u64` sequence numbers.
pub open spec fn streams_fit(ls: Seq<LoopRecordV>) -> bool {
    forall|j: int| 0 <= j < ls.len() ==> (#[trigger] ls[j]).next_sequence < u64::MAX
}

pub open spec fn sessions_numbered(ss: Seq<SessionV>) -> bool {
    forall|k: int| 0 <= k < ss.len() ==> loops_numbered(#[trigger] ss[k].loops)
}

/// Every recorded loop, open or filed, has its events numbered in increasing order.
pub open spec fn well_numbered(s: RecorderV) -> bool {
    &&& loops_numbered(s.open_loops)
    &&& sessions_numbered(s.open_sessions)
    &&& sessions_numbered(s.completed)
}

proof fn lemma_with_event_numbered(r: LoopRecordV, ev: AgentEvent)
    requires
        numbered(r),
        r.next_sequence < u64::MAX,
    ensures
        numbered(with_event(r, ev)),
{
    let r2 = with_event(r, ev);
    assert forall|i: int| 0 <= i < r2.events.len() implies (#[trigger] r2.events[i]).sequence < r2.next_sequence by {
        if i < r.events.len() {
            assert(r2.events[i] == r.events[i]);
        }
    }
    assert forall|i: int, j: int| 0 <= i < j < r2.events.len() implies (#[trigger] r2.events[i]).sequence < (#[trigger] r2.events[j]).sequence by {
        assert(r2.events[i] == r.events[i]);
        if j < r.events.len() {
            assert(r2.events[j] == r.events[j]);
        }
    }
}

proof fn lemma_skip_numbered(ls: Seq<LoopRecordV>, id: Seq<char>)
    requires
        loops_numbered(ls),
        streams_fit(ls),
    ensures
        loops_numbered(skip_event(ls, id)),
{
    match find_loop(ls, id) {
        Some(i) => {
            lemma_find_loop_from(ls, id, 0);
            let ls2 = skip_event(ls, id);
            assert(ls[i].next_sequence < u64::MAX);
            assert forall|j: int| 0 <= j < ls2.len() implies numbered(#[trigger] ls2[j]) by {
                if j != i {
                    assert(ls2[j] == ls[j]);
                } else {
                    assert(numbered(ls[i]));
                    assert(ls2[j].events == ls[i].events);
                }
            }
        },
        None => {},
    }
}

proof fn lemma_append_numbered(ls: Seq<LoopRecordV>, id: Seq<char>, ev: AgentEvent)
    requires
        loops_numbered(ls),
        streams_fit(ls),
    ensures
        loops_numbered(append_event(ls, id, ev)),
{
    match find_loop(ls, id) {
        Some(i) => {
            lemma_find_loop_from(ls, id, 0);
            assert(ls[i].next_sequence < u64::MAX);
            lemma_with_event_numbered(ls[i], ev);
            let ls2 = append_event(ls, id, ev);
            assert forall|j: int| 0 <= j < ls2.len() implies numbered(#[trigger] ls2[j]) by {
                if j != i {
                    assert(ls2[j] == ls[j]);
                }
            }
        },
        None => {},
    }
}

proof fn lemma_update_numbered(ls: Seq<LoopRecordV>, j: int, r: LoopRecordV)
    requires
        loops_numbered(ls),
        numbered(r),
        0 <= j < ls.len(),
    ensures
        loops_numbered(ls.update(j, r)),
{
    let ls2 = ls.update(j, r);
    assert forall|k: int| 0 <= k < ls2.len() implies numbered(#[trigger] ls2[k]) by {
        if k != j {
            assert(ls2[k] == ls[k]);
        }
    }
}

proof fn lemma_push_numbered(ls: Seq<LoopRecordV>, r: LoopRecordV)
    requires
        loops_numbered(ls),
        numbered(r),
    ensures
        loops_numbered(ls.push(r)),
{
    let ls2 = ls.push(r);
    assert forall|k: int| 0 <= k < ls2.len() implies numbered(#[trigger] ls2[k]) by {
        if k < ls.len() {
            assert(ls2[k] == ls[k]);
        }
    }
}

proof fn lemma_remove_numbered(ls: Seq<LoopRecordV>, j: int)
    requires
        loops_numbered(ls),
        0 <= j < ls.len(),
    ensures
        loops_numbered(ls.remove(j)),
{
    let ls2 = ls.remove(j);
    assert forall|k: int| 0 <= k < ls2.len() implies numbered(#[trigger] ls2[k]) by {
        if k < j {
            assert(ls2[k] == ls[k]);
        } else {
            assert(ls2[k] == ls[k + 1]);
        }
    }
}

proof fn lemma_session_update_numbered(ss: Seq<SessionV>, k: int, x: SessionV)
    requires
        sessions_numbered(ss),
        loops_numbered(x.loops),
        0 <= k < ss.len(),
    ensures
        sessions_numbered(ss.update(k, x)),
{
    let ss2 = ss.update(k, x);
    assert forall|m: int| 0 <= m < ss2.len() implies loops_numbered(#[trigger] ss2[m].loops) by {
        if m != k {
            assert(ss2[m] == ss[m]);
        }
    }
}

proof fn lemma_session_push_numbered(ss: Seq<SessionV>, x: SessionV)
    requires
        sessions_numbered(ss),
        loops_numbered(x.loops),
    ensures
        sessions_numbered(ss.push(x)),
{
    let ss2 = ss.push(x);
    assert forall|m: int| 0 <= m < ss2.len() implies loops_numbered(#[trigger] ss2[m].loops) by {
        if m < ss.len() {
            assert(ss2[m] == ss[m]);
        }
    }
}

proof fn lemma_file_numbered(ss: Seq<SessionV>, r: LoopRecordV)
    requires
        sessions_numbered(ss),
        numbered(r),
    ensures
        sessions_numbered(file_loop(ss, r)),
{
    match find_session(ss, r.session_id) {
        Some(k) => {
            lemma_find_session_from(ss, r.session_id, 0);
            assert(loops_numbered(ss[k].loops));
            lemma_push_numbered(ss[k].loops, r);
            lemma_session_update_numbered(ss, k, SessionV { loops: ss[k].loops.push(r), ..ss[k] });
        },
        None => {},
    }
}

proof fn lemma_add_child_numbered(ls: Seq<LoopRecordV>, j: int, lid: Seq<char>)
    requires
        loops_numbered(ls),
        0 <= j < ls.len(),
    ensures
        loops_numbered(ls.update(j, add_child(ls[j], lid))),
{
    assert(numbered(ls[j]));
    assert(add_child(ls[j], lid).events == ls[j].events);
    lemma_update_numbered(ls, j, add_child(ls[j], lid));
}

proof fn lemma_link_numbered(ss: Seq<SessionV>, ls: Seq<LoopRecordV>, parent: Option<Seq<char>>, sid: Seq<char>, lid: Seq<char>)
    requires
        sessions_numbered(ss),
        loops_numbered(ls),
    ensures
        sessions_numbered(link_parent(ss, ls, parent, sid, lid).0),
        loops_numbered(link_parent(ss, ls, parent, sid, lid).1),
{
    match parent {
        None => {},
        Some(plid) => match find_session(ss, sid) {
            Some(k) if find_loop(ss[k].loops, plid) is Some => {
                lemma_find_session_from(ss, sid, 0);
                let j = find_loop(ss[k].loops, plid)->0;
                lemma_find_loop_from(ss[k].loops, plid, 0);
                assert(loops_numbered(ss[k].loops));
                lemma_add_child_numbered(ss[k].loops, j, lid);
                lemma_session_update_numbered(ss, k, SessionV { loops: ss[k].loops.update(j, add_child(ss[k].loops[j], lid)), ..ss[k] });
            },
            _ => match find_loop(ls, plid) {
                Some(j) => {
                    lemma_find_loop_from(ls, plid, 0);
                    if ls[j].session_id == sid {
                        lemma_add_child_numbered(ls, j, lid);
                    }
                },
                None => {},
            },
        },
    }
}

proof fn lemma_set_group_in_numbered(x: SessionV, lid: Seq<char>, g: ParallelGroupRecordV)
    requires
        loops_numbered(x.loops),
    ensures
        loops_numbered(set_group_in(x, lid, g).loops),
{
    match find_loop(x.loops, lid) {
        Some(j) => {
            lemma_find_loop_from(x.loops, lid, 0);
            assert(numbered(x.loops[j]));
            lemma_update_numbered(x.loops, j, LoopRecordV { parallel_group: Some(g), ..x.loops[j] });
        },
        None => {},
    }
}

proof fn lemma_map_set_group_numbered(ss: Seq<SessionV>, lid: Seq<char>, g: ParallelGroupRecordV)
    requires
        sessions_numbered(ss),
    ensures
        sessions_numbered(ss.map_values(|x: SessionV| set_group_in(x, lid, g))),
{
    let ss2 = ss.map_values(|x: SessionV| set_group_in(x, lid, g));
    assert forall|m: int| 0 <= m < ss2.len() implies loops_numbered(#[trigger] ss2[m].loops) by {
        assert(loops_numbered(ss[m].loops));
        lemma_set_group_in_numbered(ss[m], lid, g);
    }
}

proof fn lemma_set_groups_numbered(s: RecorderV, ids: Seq<Seq<char>>, all: Seq<Seq<char>>, sel: Seq<char>, idx: usize, usage: Usage)
    requires
        well_numbered(s),
    ensures
        well_numbered(set_groups(s, ids, all, sel, idx, usage)),
    decreases ids.len(),
{
    if ids.len() > 0 {
        let g = group_for(all, sel, idx, usage, ids[0]);
        let s1 = set_group(s, ids[0], g);
        match find_loop(s.open_loops, ids[0]) {
            Some(j) => {
                lemma_find_loop_from(s.open_loops, ids[0], 0);
                assert(numbered(s.open_loops[j]));
                lemma_update_numbered(s.open_loops, j, LoopRecordV { parallel_group: Some(g), ..s.open_loops[j] });
            },
            None => {},
        }
        lemma_map_set_group_numbered(s.open_sessions, ids[0], g);
        lemma_map_set_group_numbered(s.completed, ids[0], g);
        assert(well_numbered(s1));
        lemma_set_groups_numbered(s1, ids.drop_first(), all, sel, idx, usage);
    }
}

proof fn lemma_touch_start_numbered(ss: Seq<SessionV>, sid: Seq<char>, aid: Seq<char>, ts: i64, parent: Option<Seq<char>>)
    requires
        sessions_numbered(ss),
    ensures
        sessions_numbered(start_sessions(ss, sid, aid, ts, parent)),
{
    match find_session(ss, sid) {
        Some(i) => {
            lemma_find_session_from(ss, sid, 0);
            assert(loops_numbered(ss[i].loops));
            lemma_session_update_numbered(ss, i, touch_session(ss[i], ts, parent));
        },
        None => {
            lemma_session_push_numbered(ss, touch_session(new_session(sid, aid, ts), ts, parent));
        },
    }
}

/// No two of the sessions share a session id.
pub open spec fn ids_distinct(ss: Seq<SessionV>) -> bool {
    forall|a: int, b: int| 0 <= a < b < ss.len() ==> (#[trigger] ss[a]).session_id != (#[trigger] ss[b]).session_id
}

/// An `AgentStart` never opens a second session under an id the recorder
/// already holds, completed or open: a known session is reused (and a
/// completed one reopened), an unknown one is created once.
pub proof fn law_start_never_duplicates_session(s: RecorderV, ev: AgentEvent)
    requires
        ev is AgentStart,
        ids_distinct(s.completed + s.open_sessions),
    ensures
        ids_distinct(recorder_step(s, ev).completed + recorder_step(s, ev).open_sessions),
{
    match ev {
        AgentEvent::AgentStart { agent_id, session_id, loop_id, parent_loop_id, continuation_kind, timestamp, metadata } => {
            let sid = session_id@;
            let done = s.completed;
            let open = s.open_sessions;
            let c = done + open;
            let (d2, o2) = reopen(done, open, sid);
            lemma_find_session_from(open, sid, 0);
            lemma_find_session_from(done, sid, 0);
            // The reopened lists hold the same sessions.
            assert(ids_distinct(d2 + o2)) by {
                if find_session(open, sid) is None {
                    match find_session(done, sid) {
                        Some(i) => {
                            let c2 = d2 + o2;
                            let dl = done.len() as int;
                            assert forall|a: int, b: int| 0 <= a < b < c2.len() implies
                                (#[trigger] c2[a]).session_id != (#[trigger] c2[b]).session_id by {
                                let fa = if a < dl - 1 { if a < i { a } else { a + 1 } } else if a < c2.len() - 1 { a + 1 } else { i };
                                let fb = if b < dl - 1 { if b < i { b } else { b + 1 } } else if b < c2.len() - 1 { b + 1 } else { i };
                                assert(c2[a] == c[fa]);
                                assert(c2[b] == c[fb]);
                                assert(fa != fb);
                                if fa < fb {
                                    assert(c[fa].session_id != c[fb].session_id);
                                } else {
                                    assert(c[fb].session_id != c[fa].session_id);
                                }
                            }
                        },
                        None => {
                            assert(d2 + o2 == c);
                        },
                    }
                } else {
                    assert(d2 + o2 == c);
                }
            }
            let o3 = start_sessions(o2, sid, agent_id@, timestamp, opt_str_view(parent_loop_id));
            let s1 = recorder_step(s, ev);
            assert(s1.completed == d2);
            assert(s1.open_sessions == o3);
            lemma_find_session_from(o2, sid, 0);
            match find_session(o2, sid) {
                Some(k) => {
                    let c3 = d2 + o3;
                    let c2 = d2 + o2;
                    assert forall|a: int, b: int| 0 <= a < b < c3.len() implies
                        (#[trigger] c3[a]).session_id != (#[trigger] c3[b]).session_id by {
                        assert(c3[a].session_id == c2[a].session_id);
                        assert(c3[b].session_id == c2[b].session_id);
                    }
                },
                None => {
                    // The id is not among the completed ones either.
                    lemma_find_session_from(d2, sid, 0);
                    if find_session(open, sid) is None {
                        match find_session(done, sid) {
                            Some(i) => {
                                assert(o2[o2.len() - 1] == done[i]);
                                assert(false);
                            },
                            None => {
                                assert(d2 == done);
                            },
                        }
                    }
                    assert(forall|j: int| 0 <= j < d2.len() ==> d2[j].session_id != sid);
                    let c3 = d2 + o3;
                    let c2 = d2 + o2;
                    assert forall|a: int, b: int| 0 <= a < b < c3.len() implies
                        (#[trigger] c3[a]).session_id != (#[trigger] c3[b]).session_id by {
                        if b == c3.len() - 1 {
                            assert(c3[b].session_id == sid);
                            if a < d2.len() {
                                assert(c3[a] == d2[a]);
                            } else {
                                assert(c3[a] == o2[a - d2.len()]);
                            }
                        } else {
                            assert(c3[a] == c2[a]);
                            assert(c3[b] == c2[b]);
                        }
                    }
                },
            }
        },
        _ => {},
    }
}

/// Moving a session back from the completed ones to the open ones keeps both numbered.
proof fn lemma_reopen_numbered(done: Seq<SessionV>, open: Seq<SessionV>, sid: Seq<char>)
    requires
        sessions_numbered(done),
        sessions_numbered(open),
    ensures
        sessions_numbered(reopen(done, open, sid).0),
        sessions_numbered(reopen(done, open, sid).1),
{
    if find_session(open, sid) is None {
        match find_session(done, sid) {
            Some(i) => {
                lemma_find_session_from(done, sid, 0);
                let d2 = done.remove(i);
                let o2 = open.push(done[i]);
                assert forall|k: int| 0 <= k < d2.len() implies loops_numbered(#[trigger] d2[k].loops) by {
                    if k < i {
                        assert(d2[k] == done[k]);
                    } else {
                        assert(d2[k] == done[k + 1]);
                    }
                }
                assert forall|k: int| 0 <= k < o2.len() implies loops_numbered(#[trigger] o2[k].loops) by {
                    if k < open.len() {
                        assert(o2[k] == open[k]);
                    } else {
                        assert(o2[k] == done[i]);
                    }
                }
            },
            None => {},
        }
    }
}

/// Every event keeps the recorded events of every loop numbered in increasing
/// order, below the loop's next sequence number (while the numbers fit a `u64`).
pub proof fn law_events_stay_numbered(s: RecorderV, ev: AgentEvent)
    requires
        well_numbered(s),
        streams_fit(s.open_loops),
    ensures
        well_numbered(recorder_step(s, ev)),
{
    match ev {
        AgentEvent::ParallelLoopStart { .. } => {},
        AgentEvent::AgentStart { agent_id, session_id, loop_id, parent_loop_id, continuation_kind, timestamp, metadata } => {
            lemma_reopen_numbered(s.completed, s.open_sessions, session_id@);
            lemma_touch_start_numbered(reopen(s.completed, s.open_sessions, session_id@).1, session_id@, agent_id@, timestamp, opt_str_view(parent_loop_id));
            let r = new_loop(loop_id@, session_id@, agent_id@, opt_str_view(parent_loop_id), continuation_kind, timestamp, opt_str_view(metadata));
            let pl = put_loop(s.open_loops, r);
            match find_loop(s.open_loops, r.loop_id) {
                Some(i) => {
                    lemma_find_loop_from(s.open_loops, r.loop_id, 0);
                    lemma_update_numbered(s.open_loops, i, r);
                    assert forall|j: int| 0 <= j < pl.len() implies (#[trigger] pl[j]).next_sequence < u64::MAX by {
                        if j != i {
                            assert(pl[j] == s.open_loops[j]);
                        }
                    }
                },
                None => {
                    lemma_push_numbered(s.open_loops, r);
                    assert forall|j: int| 0 <= j < pl.len() implies (#[trigger] pl[j]).next_sequence < u64::MAX by {
                        if j < s.open_loops.len() {
                            assert(pl[j] == s.open_loops[j]);
                        }
                    }
                },
            }
            lemma_append_numbered(pl, loop_id@, ev);
        },
        AgentEvent::AgentEnd { loop_id, messages, usage, timestamp, rejection } => {
            let lid = loop_id@;
            let ls1 = append_event(s.open_loops, lid, ev);
            lemma_append_numbered(s.open_loops, lid, ev);
            match find_loop(ls1, lid) {
                Some(i) => {
                    lemma_find_loop_from(ls1, lid, 0);
                    let r = closed_loop(ls1[i], lid, msgs_view(messages@), usage, timestamp, opt_str_view(rejection));
                    assert(numbered(ls1[i]));
                    assert(r.events == ls1[i].events);
                    lemma_remove_numbered(ls1, i);
                    lemma_link_numbered(s.open_sessions, ls1.remove(i), r.parent_loop_id, r.session_id, lid);
                    let linked = link_parent(s.open_sessions, ls1.remove(i), r.parent_loop_id, r.session_id, lid);
                    lemma_file_numbered(linked.0, r);
                },
                None => {},
            }
        },
        AgentEvent::TurnStart { loop_id, .. } => lemma_append_numbered(s.open_loops, loop_id@, ev),
        AgentEvent::MessageEnd { loop_id, .. } => lemma_append_numbered(s.open_loops, loop_id@, ev),
        AgentEvent::TurnEnd { loop_id, message, usage, timestamp, tool_results } => {
            let lid = loop_id@;
            let ls1 = append_event(s.open_loops, lid, ev);
            lemma_append_numbered(s.open_loops, lid, ev);
            let ls2 = match find_turn(s.partial_turns, lid) {
                Some(i) => {
                    let t = finished_turn(s.partial_turns[i], usage, message@, tool_results@.map_values(|m: Message| m@), timestamp);
                    match find_loop(ls1, lid) {
                        Some(j) => {
                            lemma_find_loop_from(ls1, lid, 0);
                            assert(numbered(ls1[j]));
                            lemma_update_numbered(ls1, j, LoopRecordV { turns: ls1[j].turns.push(t), ..ls1[j] });
                            ls1.update(j, LoopRecordV { turns: ls1[j].turns.push(t), ..ls1[j] })
                        },
                        None => ls1,
                    }
                },
                None => ls1,
            };
            match find_loop(ls2, lid) {
                Some(j) => {
                    lemma_find_loop_from(ls2, lid, 0);
                    assert(numbered(ls2[j]));
                    if ls2[j].config is None {
                        lemma_update_numbered(ls2, j, LoopRecordV { config: snapshot_of(seq![message@], lid), ..ls2[j] });
                    }
                },
                None => {},
            }
        },
        AgentEvent::ToolExecutionEnd { loop_id, tool_call_id, tool_name, result, .. } => {
            let lid = loop_id@;
            let ls1 = append_event(s.open_loops, lid, ev);
            lemma_append_numbered(s.open_loops, lid, ev);
            match opt_str_view(result.child_loop_id) {
                Some(c) => match find_loop(ls1, lid) {
                    Some(j) => {
                        lemma_find_loop_from(ls1, lid, 0);
                        assert(numbered(ls1[j]));
                        let csid = session_of_loop(c);
                        let rf = ChildLoopRefV { tool_call_id: tool_call_id@, tool_name: tool_name@, child_loop_id: c, child_session_id: csid };
                        lemma_update_numbered(ls1, j, LoopRecordV { child_loop_refs: ls1[j].child_loop_refs.push(rf), ..ls1[j] });
                        let psid = ls1[j].session_id;
                        match find_session(s.open_sessions, csid) {
                            Some(k) => {
                                lemma_find_session_from(s.open_sessions, csid, 0);
                                assert(loops_numbered(s.open_sessions[k].loops));
                                lemma_session_update_numbered(s.open_sessions, k, enrich(s.open_sessions[k], psid, lid, tool_call_id@, tool_name@));
                            },
                            None => match find_session(s.completed, csid) {
                                Some(k) => {
                                    lemma_find_session_from(s.completed, csid, 0);
                                    assert(loops_numbered(s.completed[k].loops));
                                    lemma_session_update_numbered(s.completed, k, enrich(s.completed[k], psid, lid, tool_call_id@, tool_name@));
                                },
                                None => {},
                            },
                        }
                    },
                    None => {},
                },
                None => {},
            }
        },
        AgentEvent::ParallelLoopEnd { selected_loop_id, selected_config_index, evaluation_usage, .. } => {
            let sel = selected_loop_id@;
            let all = match find_group(s.groups, sel) {
                Some(i) => s.groups[i].1,
                None => seq![sel],
            };
            lemma_set_groups_numbered(s, all, all, sel, selected_config_index, evaluation_usage);
        },
        AgentEvent::MessageUpdate { loop_id, .. } => if s.include_streaming {
            lemma_append_numbered(s.open_loops, loop_id@, ev);
        } else {
            lemma_skip_numbered(s.open_loops, loop_id@);
        },
        _ => {
            match event_loop(ev) {
                Some(lid) => lemma_append_numbered(s.open_loops, lid, ev),
                None => {},
            }
        },
    }
}

proof fn lemma_file_all_numbered(ss: Seq<SessionV>, ls: Seq<LoopRecordV>)
    requires
        sessions_numbered(ss),
        loops_numbered(ls),
    ensures
        sessions_numbered(file_all(ss, ls)),
    decreases ls.len(),
{
    if ls.len() > 0 {
        assert(numbered(ls[0]));
        lemma_file_numbered(ss, ls[0]);
        lemma_remove_numbered(ls, 0);
        assert(ls.remove(0) =~= ls.drop_first());
        lemma_file_all_numbered(file_loop(ss, ls[0]), ls.drop_first());
    }
}

/// Flushing keeps the recorded events of every loop numbered in increasing order.
pub proof fn law_flush_keeps_numbering(s: RecorderV)
    requires
        well_numbered(s),
    ensures
        well_numbered(flushed(s)),
{
    let ab = s.open_loops.map_values(|r: LoopRecordV| aborted(r));
    assert forall|j: int| 0 <= j < ab.len() implies numbered(#[trigger] ab[j]) by {
        assert(numbered(s.open_loops[j]));
        assert(ab[j].events == s.open_loops[j].events);
    }
    lemma_file_all_numbered(s.open_sessions, ab);
    let f = file_all(s.open_sessions, ab);
    let c = s.completed + f;
    assert forall|m: int| 0 <= m < c.len() implies loops_numbered(#[trigger] c[m].loops) by {
        if m < s.completed.len() {
            assert(c[m] == s.completed[m]);
        } else {
            assert(c[m] == f[m - s.completed.len()]);
        }
    }
}

/// One event arriving for a loop: recorded under the loop's next sequence number
/// (`x.0`), or filtered out; either way the number advances.
pub open spec fn arrive(r: LoopRecordV, x: (bool, AgentEvent)) -> LoopRecordV {
    if x.0 {
        with_event(r, x.1)
    } else {
        LoopRecordV { next_sequence: next_after(r.next_sequence), ..r }
    }
}

/// A loop record after the events `xs` arrive for it in order.
pub open spec fn after_arrivals(r: LoopRecordV, xs: Seq<(bool, AgentEvent)>) -> LoopRecordV
    decreases xs.len(),
{
    if xs.len() == 0 {
        r
    } else {
        arrive(after_arrivals(r, xs.drop_last()), xs.last())
    }
}

/// The recorded ones among the arrivals `xs`, the one at position `p` numbered `n + p`.
pub open spec fn recorded_from(n: u64, xs: Seq<(bool, AgentEvent)>) -> Seq<LoopEvent>
    decreases xs.len(),
{
    if xs.len() == 0 {
        seq![]
    } else if xs.last().0 {
        recorded_from(n, xs.drop_last()).push(LoopEvent { sequence: (n + xs.len() - 1) as u64, event: xs.last().1 })
    } else {
        recorded_from(n, xs.drop_last())
    }
}

/// Sequence numbers count arrivals: an event for an open loop, recorded or filtered
/// out, is one arrival for it, and a recorded event is numbered by how many events
/// arrived for its loop before it, so filtered events leave gaps. Once the loop
/// started with number 0 (its `AgentStart`), the event at arrival `p` has number `p`.
pub proof fn law_sequence_counts_arrivals(
    r: LoopRecordV,
    xs: Seq<(bool, AgentEvent)>,
    ls: Seq<LoopRecordV>,
    id: Seq<char>,
    ev: AgentEvent,
)
    requires
        r.next_sequence + xs.len() <= u64::MAX,
    ensures
        after_arrivals(r, xs).next_sequence == r.next_sequence + xs.len(),
        after_arrivals(r, xs).events == r.events + recorded_from(r.next_sequence, xs),
        find_loop(ls, id) matches Some(i) ==> append_event(ls, id, ev) == ls.update(i, arrive(ls[i], (true, ev)))
            && skip_event(ls, id) == ls.update(i, arrive(ls[i], (false, ev))),
    decreases xs.len(),
{
    if xs.len() > 0 {
        law_sequence_counts_arrivals(r, xs.drop_last(), ls, id, ev);
        let r0 = after_arrivals(r, xs.drop_last());
        if xs.last().0 {
            assert(r.events + recorded_from(r.next_sequence, xs) =~= (r.events + recorded_from(
                r.next_sequence,
                xs.drop_last(),
            )).push(LoopEvent { sequence: r0.next_sequence, event: xs.last().1 }));
        }
    } else {
        assert(r.events + recorded_from(r.next_sequence, xs) =~= r.events);
    }
    if let Some(i) = find_loop(ls, id) {
        assert(skip_event(ls, id) =~= ls.update(i, arrive(ls[i], (false, ev))));
    }
}

proof fn lemma_find_turn_from(ts: Seq<PartialTurnV>, id: Seq<char>, i: int)
    requires
        0 <= i,
    ensures
        find_turn_from(ts, id, i) matches Some(k) ==> i <= k < ts.len(),
    decreases ts.len() - i,
{
    if i < ts.len() && ts[i].turn_id.loop_id != id {
        lemma_find_turn_from(ts, id, i + 1);
    }
}

/// When a turn of an open loop ends, the turn added to the loop holds exactly the
/// tool results the `TurnEnd` event carried, in order, each as a message of that
/// turn (the turn's id, no node, no parent, no tags).
pub proof fn law_turn_end_keeps_tool_results(s: RecorderV, ev: AgentEvent, i: int, j: int)
    requires
        ev is TurnEnd,
        find_turn(s.partial_turns, ev->TurnEnd_loop_id@) == Some(i),
        find_loop(s.open_loops, ev->TurnEnd_loop_id@) == Some(j),
    ensures
        ({
            let s2 = recorder_step(s, ev);
            let results = ev->TurnEnd_tool_results@;
            let tid = s.partial_turns[i].turn_id;
            &&& 0 <= j < s2.open_loops.len()
            &&& s2.open_loops[j].turns.len() == s.open_loops[j].turns.len() + 1
            &&& s2.open_loops[j].turns.last().turn_id == tid
            &&& s2.open_loops[j].turns.last().tool_results.len() == results.len()
            &&& forall|k: int|
                0 <= k < results.len() ==> #[trigger] s2.open_loops[j].turns.last().tool_results[k] == AgentMessageV::Llm(
                    LlmMessageV { message: results[k]@, turn_id: Some(tid), node_id: None, parent_id: None, tags: seq![] },
                )
        }),
{
    let lid = ev->TurnEnd_loop_id@;
    let ls0 = s.open_loops;
    lemma_find_loop_from(ls0, lid, 0);
    lemma_find_turn_from(s.partial_turns, lid, 0);
    let ls1 = append_event(ls0, lid, ev);
    lemma_append_keeps_ids(ls0, lid, ev);
    lemma_same_loop_ids_find(ls0, ls1, lid, 0);
    let results = ev->TurnEnd_tool_results@.map_values(|m: Message| m@);
    let t = finished_turn(s.partial_turns[i], ev->TurnEnd_usage, ev->TurnEnd_message@, results, ev->TurnEnd_timestamp);
    let ls2 = ls1.update(j, LoopRecordV { turns: ls1[j].turns.push(t), ..ls1[j] });
    assert(same_loop_ids(ls1, ls2));
    lemma_same_loop_ids_find(ls1, ls2, lid, 0);
    assert(ls1[j].turns == ls0[j].turns);
    let s2 = recorder_step(s, ev);
    assert(s2.open_loops == set_config_from(ls2, lid, ev->TurnEnd_message@));
    assert(s2.open_loops[j].turns == ls2[j].turns);
}

} // verus!
