//! The records a session recorder builds: sessions, the loops they hold,
//! the turns of a loop and its event stream. Timestamps are milliseconds
//! since the Unix epoch (UTC).
use vstd::prelude::*;
use crate::types::{
    AgentEvent, AgentMessage, AgentMessageV, ContinuationKind, TurnId, TurnIdV, TurnTrigger, Usage, msgs_view,
    opt_str_view, strs_view,
};
use crate::provider::request::ThinkingLevel;
use crate::context::strategy::CompactionBlock;
use crate::strs::copy_string;
use crate::session::{
    ChildLoopRef, LoopConfigSnapshot, LoopStatus, ParallelGroupRecord, SessionScope, SpawnRef,
};

verus! {

broadcast use vstd::string::group_string_axioms;

/// One event in a loop's event stream, numbered from 0 within the loop.
pub struct LoopEvent {
    pub sequence: u64,
    pub event: AgentEvent,
}

/// One model call and the tool executions that followed it.
pub struct Turn {
    pub turn_id: TurnId,
    pub triggered_by: TurnTrigger,
    pub usage: Usage,
    /// Messages injected at the start of the turn.
    pub input_messages: Vec<AgentMessage>,
    /// The assistant message of the turn.
    pub output_message: AgentMessage,
    /// The tool results of the turn.
    pub tool_results: Vec<AgentMessage>,
    pub started_at: i64,
    pub ended_at: i64,
}

/// One execution of an agent loop.
pub struct LoopRecord {
    pub loop_id: String,
    pub session_id: String,
    pub agent_id: String,
    pub parent_loop_id: Option<String>,
    pub continuation_kind: Option<ContinuationKind>,
    pub started_at: i64,
    pub ended_at: Option<i64>,
    pub status: LoopStatus,
    pub rejection: Option<String>,
    pub config: Option<LoopConfigSnapshot>,
    pub messages: Vec<AgentMessage>,
    pub turns: Vec<Turn>,
    pub usage: Usage,
    /// The caller's metadata, as compact JSON text.
    pub metadata: Option<String>,
    pub events: Vec<LoopEvent>,
    /// The sequence number that the next event for this loop gets. Every event
    /// for the loop advances it, whether it is recorded or filtered out, so a
    /// gap between recorded sequence numbers marks filtered events.
    pub next_sequence: u64,
    pub children_loop_ids: Vec<String>,
    pub child_loop_refs: Vec<ChildLoopRef>,
    pub parallel_group: Option<ParallelGroupRecord>,
    pub compaction_block: Option<CompactionBlock>,
}

/// How a session came to be.
pub enum SessionFormation {
    Explicit { timestamp: i64 },
    FirstLoop { timestamp: i64 },
    InactivityTimeout { threshold_secs: u64, previous_session_id: Option<String>, timestamp: i64 },
}

/// The loops of one agent session.
pub struct Session {
    pub session_id: String,
    pub agent_id: String,
    pub created_at: i64,
    pub last_active_at: i64,
    pub formation: SessionFormation,
    pub parent_spawn_ref: Option<SpawnRef>,
    pub thinking_level: Option<ThinkingLevel>,
    /// The session's temperature override, as the JSON number text it is sent as.
    pub temperature: Option<String>,
    pub scope: SessionScope,
    pub loops: Vec<LoopRecord>,
}

// ---------------------------------------------------------------------------
// Values
// ---------------------------------------------------------------------------

pub struct LoopConfigSnapshotV {
    pub model: Seq<char>,
    pub provider: Seq<char>,
    pub config_id: Option<Seq<char>>,
}

impl View for LoopConfigSnapshot {
    type V = LoopConfigSnapshotV;

    open spec fn view(&self) -> LoopConfigSnapshotV {
        LoopConfigSnapshotV { model: self.model@, provider: self.provider@, config_id: opt_str_view(self.config_id) }
    }
}

pub struct ChildLoopRefV {
    pub tool_call_id: Seq<char>,
    pub tool_name: Seq<char>,
    pub child_loop_id: Seq<char>,
    pub child_session_id: Seq<char>,
}

impl View for ChildLoopRef {
    type V = ChildLoopRefV;

    open spec fn view(&self) -> ChildLoopRefV {
        ChildLoopRefV {
            tool_call_id: self.tool_call_id@,
            tool_name: self.tool_name@,
            child_loop_id: self.child_loop_id@,
            child_session_id: self.child_session_id@,
        }
    }
}

pub struct SpawnRefV {
    pub parent_session_id: Seq<char>,
    pub parent_loop_id: Seq<char>,
    pub tool_call_id: Seq<char>,
    pub tool_name: Seq<char>,
}

impl View for SpawnRef {
    type V = SpawnRefV;

    open spec fn view(&self) -> SpawnRefV {
        SpawnRefV {
            parent_session_id: self.parent_session_id@,
            parent_loop_id: self.parent_loop_id@,
            tool_call_id: self.tool_call_id@,
            tool_name: self.tool_name@,
        }
    }
}

pub struct ParallelGroupRecordV {
    pub all_loop_ids: Seq<Seq<char>>,
    pub selected_loop_id: Seq<char>,
    pub selected_config_index: usize,
    pub evaluation_usage: Usage,
    pub is_selected: bool,
}

impl View for ParallelGroupRecord {
    type V = ParallelGroupRecordV;

    open spec fn view(&self) -> ParallelGroupRecordV {
        ParallelGroupRecordV {
            all_loop_ids: strs_view(self.all_loop_ids@),
            selected_loop_id: self.selected_loop_id@,
            selected_config_index: self.selected_config_index,
            evaluation_usage: self.evaluation_usage,
            is_selected: self.is_selected,
        }
    }
}

pub struct TurnV {
    pub turn_id: TurnIdV,
    pub triggered_by: TurnTrigger,
    pub usage: Usage,
    pub input_messages: Seq<AgentMessageV>,
    pub output_message: AgentMessageV,
    pub tool_results: Seq<AgentMessageV>,
    pub started_at: i64,
    pub ended_at: i64,
}

impl View for Turn {
    type V = TurnV;

    open spec fn view(&self) -> TurnV {
        TurnV {
            turn_id: self.turn_id@,
            triggered_by: self.triggered_by,
            usage: self.usage,
            input_messages: msgs_view(self.input_messages@),
            output_message: self.output_message@,
            tool_results: msgs_view(self.tool_results@),
            started_at: self.started_at,
            ended_at: self.ended_at,
        }
    }
}

pub open spec fn opt_config_view(c: Option<LoopConfigSnapshot>) -> Option<LoopConfigSnapshotV> {
    match c {
        Some(x) => Some(x@),
        None => None,
    }
}

pub open spec fn opt_group_view(g: Option<ParallelGroupRecord>) -> Option<ParallelGroupRecordV> {
    match g {
        Some(x) => Some(x@),
        None => None,
    }
}

pub open spec fn opt_spawn_view(s: Option<SpawnRef>) -> Option<SpawnRefV> {
    match s {
        Some(x) => Some(x@),
        None => None,
    }
}

pub open spec fn turns_view(v: Seq<Turn>) -> Seq<TurnV> {
    v.map_values(|t: Turn| t@)
}

pub open spec fn refs_view(v: Seq<ChildLoopRef>) -> Seq<ChildLoopRefV> {
    v.map_values(|r: ChildLoopRef| r@)
}

pub struct LoopRecordV {
    pub loop_id: Seq<char>,
    pub session_id: Seq<char>,
    pub agent_id: Seq<char>,
    pub parent_loop_id: Option<Seq<char>>,
    pub continuation_kind: Option<ContinuationKind>,
    pub started_at: i64,
    pub ended_at: Option<i64>,
    pub status: LoopStatus,
    pub rejection: Option<Seq<char>>,
    pub config: Option<LoopConfigSnapshotV>,
    pub messages: Seq<AgentMessageV>,
    pub turns: Seq<TurnV>,
    pub usage: Usage,
    pub metadata: Option<Seq<char>>,
    pub events: Seq<LoopEvent>,
    pub next_sequence: u64,
    pub children_loop_ids: Seq<Seq<char>>,
    pub child_loop_refs: Seq<ChildLoopRefV>,
    pub parallel_group: Option<ParallelGroupRecordV>,
    pub compaction_block: Option<CompactionBlock>,
}

impl View for LoopRecord {
    type V = LoopRecordV;

    open spec fn view(&self) -> LoopRecordV {
        LoopRecordV {
            loop_id: self.loop_id@,
            session_id: self.session_id@,
            agent_id: self.agent_id@,
            parent_loop_id: opt_str_view(self.parent_loop_id),
            continuation_kind: self.continuation_kind,
            started_at: self.started_at,
            ended_at: self.ended_at,
            status: self.status,
            rejection: opt_str_view(self.rejection),
            config: opt_config_view(self.config),
            messages: msgs_view(self.messages@),
            turns: turns_view(self.turns@),
            usage: self.usage,
            metadata: opt_str_view(self.metadata),
            events: self.events@,
            next_sequence: self.next_sequence,
            children_loop_ids: strs_view(self.children_loop_ids@),
            child_loop_refs: refs_view(self.child_loop_refs@),
            parallel_group: opt_group_view(self.parallel_group),
            compaction_block: self.compaction_block,
        }
    }
}

pub enum SessionFormationV {
    Explicit { timestamp: i64 },
    FirstLoop { timestamp: i64 },
    InactivityTimeout { threshold_secs: u64, previous_session_id: Option<Seq<char>>, timestamp: i64 },
}

impl View for SessionFormation {
    type V = SessionFormationV;

    open spec fn view(&self) -> SessionFormationV {
        match self {
            SessionFormation::Explicit { timestamp } => SessionFormationV::Explicit { timestamp: *timestamp },
            SessionFormation::FirstLoop { timestamp } => SessionFormationV::FirstLoop { timestamp: *timestamp },
            SessionFormation::InactivityTimeout { threshold_secs, previous_session_id, timestamp } =>
                SessionFormationV::InactivityTimeout {
                    threshold_secs: *threshold_secs,
                    previous_session_id: opt_str_view(*previous_session_id),
                    timestamp: *timestamp,
                },
        }
    }
}

pub open spec fn loops_view(v: Seq<LoopRecord>) -> Seq<LoopRecordV> {
    v.map_values(|l: LoopRecord| l@)
}

pub struct SessionV {
    pub session_id: Seq<char>,
    pub agent_id: Seq<char>,
    pub created_at: i64,
    pub last_active_at: i64,
    pub formation: SessionFormationV,
    pub parent_spawn_ref: Option<SpawnRefV>,
    pub thinking_level: Option<ThinkingLevel>,
    pub temperature: Option<Seq<char>>,
    pub scope: SessionScope,
    pub loops: Seq<LoopRecordV>,
}

impl View for Session {
    type V = SessionV;

    open spec fn view(&self) -> SessionV {
        SessionV {
            session_id: self.session_id@,
            agent_id: self.agent_id@,
            created_at: self.created_at,
            last_active_at: self.last_active_at,
            formation: self.formation@,
            parent_spawn_ref: opt_spawn_view(self.parent_spawn_ref),
            thinking_level: self.thinking_level,
            temperature: opt_str_view(self.temperature),
            scope: self.scope,
            loops: loops_view(self.loops@),
        }
    }
}

pub open spec fn sessions_view(v: Seq<Session>) -> Seq<SessionV> {
    v.map_values(|s: Session| s@)
}

/// The position of the first loop with id `id`, searching from `i`.
pub open spec fn find_loop_from(ls: Seq<LoopRecordV>, id: Seq<char>, i: int) -> Option<int>
    decreases ls.len() - i,
{
    if i < 0 || i >= ls.len() {
        None
    } else if ls[i].loop_id == id {
        Some(i)
    } else {
        find_loop_from(ls, id, i + 1)
    }
}

/// The position of the first loop with id `id`.
pub open spec fn find_loop(ls: Seq<LoopRecordV>, id: Seq<char>) -> Option<int> {
    find_loop_from(ls, id, 0)
}

/// The position of the first session with id `id`, searching from `i`.
pub open spec fn find_session_from(ss: Seq<SessionV>, id: Seq<char>, i: int) -> Option<int>
    decreases ss.len() - i,
{
    if i < 0 || i >= ss.len() {
        None
    } else if ss[i].session_id == id {
        Some(i)
    } else {
        find_session_from(ss, id, i + 1)
    }
}

/// The position of the first session with id `id`.
pub open spec fn find_session(ss: Seq<SessionV>, id: Seq<char>) -> Option<int> {
    find_session_from(ss, id, 0)
}

pub proof fn lemma_find_loop_from(ls: Seq<LoopRecordV>, id: Seq<char>, i: int)
    requires
        0 <= i,
    ensures
        match find_loop_from(ls, id, i) {
            Some(k) => i <= k < ls.len() && ls[k].loop_id == id
                && forall|j: int| i <= j < k ==> ls[j].loop_id != id,
            None => forall|j: int| i <= j < ls.len() ==> ls[j].loop_id != id,
        },
    decreases ls.len() - i,
{
    if i < ls.len() && ls[i].loop_id != id {
        lemma_find_loop_from(ls, id, i + 1);
    }
}

pub proof fn lemma_find_session_from(ss: Seq<SessionV>, id: Seq<char>, i: int)
    requires
        0 <= i,
    ensures
        match find_session_from(ss, id, i) {
            Some(k) => i <= k < ss.len() && ss[k].session_id == id
                && forall|j: int| i <= j < k ==> ss[j].session_id != id,
            None => forall|j: int| i <= j < ss.len() ==> ss[j].session_id != id,
        },
    decreases ss.len() - i,
{
    if i < ss.len() && ss[i].session_id != id {
        lemma_find_session_from(ss, id, i + 1);
    }
}

/// The position of the first loop of `v` with id `id`.
pub fn position_of_loop(v: &Vec<LoopRecord>, id: &str) -> (r: Option<usize>)
    ensures
        match r {
            Some(k) => k < v.len() && find_loop(loops_view(v@), id@) == Some(k as int),
            None => find_loop(loops_view(v@), id@) is None,
        },
{
    let ghost ls = loops_view(v@);
    let mut i: usize = 0;
    while i < v.len()
        invariant
            0 <= i <= v.len(),
            ls == loops_view(v@),
            find_loop(ls, id@) == find_loop_from(ls, id@, i as int),
        decreases v.len() - i,
    {
        if crate::strs::str_eq(v[i].loop_id.as_str(), id) {
            return Some(i);
        }
        i = i + 1;
    }
    None
}

/// The position of the first session of `v` with id `id`.
pub fn position_of_session(v: &Vec<Session>, id: &str) -> (r: Option<usize>)
    ensures
        match r {
            Some(k) => k < v.len() && find_session(sessions_view(v@), id@) == Some(k as int),
            None => find_session(sessions_view(v@), id@) is None,
        },
{
    let ghost ss = sessions_view(v@);
    let mut i: usize = 0;
    while i < v.len()
        invariant
            0 <= i <= v.len(),
            ss == sessions_view(v@),
            find_session(ss, id@) == find_session_from(ss, id@, i as int),
        decreases v.len() - i,
    {
        if crate::strs::str_eq(v[i].session_id.as_str(), id) {
            return Some(i);
        }
        i = i + 1;
    }
    None
}

// ---------------------------------------------------------------------------
// Queries
// ---------------------------------------------------------------------------

impl Turn {
    /// The turn's index within its loop.
    pub fn index(&self) -> (r: u32)
        ensures
            r == self.turn_id.turn_index,
    {
        self.turn_id.turn_index
    }

    /// How long the turn took, in milliseconds.
    pub fn duration(&self) -> (r: i64)
        requires
            i64::MIN <= self.ended_at - self.started_at <= i64::MAX,
        ensures
            r == self.ended_at - self.started_at,
    {
        self.ended_at - self.started_at
    }

    /// Whether the turn ran tools.
    pub fn has_tool_calls(&self) -> (r: bool)
        ensures
            r == (self.tool_results.len() > 0),
    {
        self.tool_results.len() > 0
    }

    /// The turn's messages in order: the input, the output, then the tool results.
    pub fn all_messages(&self) -> (r: Vec<&AgentMessage>)
        ensures
            r@.map_values(|m: &AgentMessage| m@) == self@.input_messages.push(self@.output_message) + self@.tool_results,
    {
        let mut r: Vec<&AgentMessage> = Vec::new();
        let mut k: usize = 0;
        while k < self.input_messages.len()
            invariant
                0 <= k <= self.input_messages.len(),
                r@.map_values(|m: &AgentMessage| m@) == msgs_view(self.input_messages@).take(k as int),
            decreases self.input_messages.len() - k,
        {
            let ghost before = r@.map_values(|m: &AgentMessage| m@);
            r.push(&self.input_messages[k]);
            assert(r@.map_values(|m: &AgentMessage| m@) =~= before.push(self.input_messages@[k as int]@));
            assert(msgs_view(self.input_messages@).take(k + 1) =~= msgs_view(self.input_messages@).take(k as int).push(
                self.input_messages@[k as int]@,
            ));
            k = k + 1;
        }
        assert(msgs_view(self.input_messages@).take(self.input_messages.len() as int) =~= msgs_view(self.input_messages@));
        let ghost before = r@.map_values(|m: &AgentMessage| m@);
        r.push(&self.output_message);
        assert(r@.map_values(|m: &AgentMessage| m@) =~= before.push(self.output_message@));
        let ghost head = r@.map_values(|m: &AgentMessage| m@);
        let mut k: usize = 0;
        while k < self.tool_results.len()
            invariant
                0 <= k <= self.tool_results.len(),
                r@.map_values(|m: &AgentMessage| m@) == head + msgs_view(self.tool_results@).take(k as int),
            decreases self.tool_results.len() - k,
        {
            let ghost before = r@.map_values(|m: &AgentMessage| m@);
            r.push(&self.tool_results[k]);
            assert(r@.map_values(|m: &AgentMessage| m@) =~= before.push(self.tool_results@[k as int]@));
            assert(msgs_view(self.tool_results@).take(k + 1) =~= msgs_view(self.tool_results@).take(k as int).push(
                self.tool_results@[k as int]@,
            ));
            k = k + 1;
        }
        assert(msgs_view(self.tool_results@).take(self.tool_results.len() as int) =~= msgs_view(self.tool_results@));
        r
    }
}

impl LoopRecord {
    /// The turn with index `turn_index`, if it was recorded.
    pub fn get_turn(&self, turn_index: u32) -> (r: Option<&Turn>)
        ensures
            match r {
                Some(t) => turn_index < self.turns.len() && t@ == self@.turns[turn_index as int],
                None => turn_index >= self.turns.len(),
            },
    {
        let i = turn_index as usize;
        if i < self.turns.len() {
            Some(&self.turns[i])
        } else {
            None
        }
    }

    /// How many turns were recorded.
    pub fn turn_count(&self) -> (r: usize)
        ensures
            r == self@.turns.len(),
    {
        self.turns.len()
    }
}

/// The loops of `ls` that are roots: with no parent, or a parent that is not among `all`.
pub open spec fn roots(ls: Seq<LoopRecordV>, all: Seq<LoopRecordV>) -> Seq<LoopRecordV>
    decreases ls.len(),
{
    if ls.len() == 0 {
        seq![]
    } else {
        let rest = roots(ls.drop_last(), all);
        let l = ls.last();
        match l.parent_loop_id {
            Some(p) => if find_loop(all, p) is Some { rest } else { rest.push(l) },
            None => rest.push(l),
        }
    }
}

/// The loops of `ls` whose id is among `ids`, in order.
pub open spec fn loops_among(ls: Seq<LoopRecordV>, ids: Seq<Seq<char>>) -> Seq<LoopRecordV>
    decreases ls.len(),
{
    if ls.len() == 0 {
        seq![]
    } else {
        let rest = loops_among(ls.drop_last(), ids);
        if ids.contains(ls.last().loop_id) { rest.push(ls.last()) } else { rest }
    }
}

/// The ids of the children of the first loop `id`; none when there is no such loop.
pub open spec fn children_ids(ls: Seq<LoopRecordV>, id: Seq<char>) -> Seq<Seq<char>> {
    match find_loop(ls, id) {
        Some(i) => ls[i].children_loop_ids,
        None => seq![],
    }
}

/// The ids of the parallel group of the first loop `id`; none when it has none.
pub open spec fn group_ids(ls: Seq<LoopRecordV>, id: Seq<char>) -> Seq<Seq<char>> {
    match find_loop(ls, id) {
        Some(i) => match ls[i].parallel_group {
            Some(g) => g.all_loop_ids,
            None => seq![],
        },
        None => seq![],
    }
}

/// The chain from loop `id` back through its parents, newest first, when it
/// ends within `fuel` steps: it ends at a loop with no parent, or at an id
/// with no loop.
pub open spec fn chain_back(ls: Seq<LoopRecordV>, id: Seq<char>, fuel: nat) -> Option<Seq<Seq<char>>>
    decreases fuel,
{
    if fuel == 0 {
        None
    } else {
        match find_loop(ls, id) {
            Some(i) => match ls[i].parent_loop_id {
                Some(p) => match chain_back(ls, p, (fuel - 1) as nat) {
                    Some(c) => Some(seq![id] + c),
                    None => None,
                },
                None => Some(seq![id]),
            },
            None => Some(seq![id]),
        }
    }
}

/// The sum of one usage counter over loops.
pub open spec fn usage_sum(ls: Seq<LoopRecordV>, f: spec_fn(Usage) -> u64) -> int
    decreases ls.len(),
{
    if ls.len() == 0 {
        0
    } else {
        usage_sum(ls.drop_last(), f) + f(ls.last().usage)
    }
}

pub open spec fn u_input(u: Usage) -> u64 { u.input }
pub open spec fn u_output(u: Usage) -> u64 { u.output }
pub open spec fn u_reasoning(u: Usage) -> u64 { u.reasoning }
pub open spec fn u_cache_read(u: Usage) -> u64 { u.cache_read }
pub open spec fn u_cache_write(u: Usage) -> u64 { u.cache_write }
pub open spec fn u_total(u: Usage) -> u64 { u.total_tokens }

proof fn lemma_usage_sum_prefix(ls: Seq<LoopRecordV>, f: spec_fn(Usage) -> u64, k: int)
    requires
        0 <= k <= ls.len(),
    ensures
        0 <= usage_sum(ls.take(k), f) <= usage_sum(ls, f),
    decreases ls.len() - k,
{
    if k < ls.len() {
        lemma_usage_sum_prefix(ls, f, k + 1);
        assert(ls.take(k + 1).drop_last() =~= ls.take(k));
    } else {
        assert(ls.take(k) =~= ls);
    }
    lemma_usage_sum_nonneg(ls.take(k), f);
}

proof fn lemma_usage_sum_nonneg(ls: Seq<LoopRecordV>, f: spec_fn(Usage) -> u64)
    ensures
        usage_sum(ls, f) >= 0,
    decreases ls.len(),
{
    if ls.len() > 0 {
        lemma_usage_sum_nonneg(ls.drop_last(), f);
    }
}

impl Session {
    /// The first loop with id `id`.
    pub fn get_loop(&self, id: &str) -> (r: Option<&LoopRecord>)
        ensures
            match r {
                Some(x) => find_loop(self@.loops, id@) matches Some(k) && x@ == self@.loops[k],
                None => find_loop(self@.loops, id@) is None,
            },
    {
        match position_of_loop(&self.loops, id) {
            Some(k) => Some(&self.loops[k]),
            None => None,
        }
    }

    /// The first loop with id `id`, for changing it in place: whatever is
    /// written through the reference becomes that loop, and nothing else of
    /// the session changes.
    pub fn get_loop_mut(&mut self, id: &str) -> (r: Option<&mut LoopRecord>)
        ensures
            match r {
                Some(x) => find_loop(old(self)@.loops, id@) matches Some(k)
                    && x@ == old(self)@.loops[k]
                    && final(self).loops@ == old(self).loops@.update(k, *final(x))
                    && final(self).session_id == old(self).session_id
                    && final(self).agent_id == old(self).agent_id
                    && final(self).created_at == old(self).created_at
                    && final(self).last_active_at == old(self).last_active_at
                    && final(self).formation == old(self).formation
                    && final(self).parent_spawn_ref == old(self).parent_spawn_ref
                    && final(self).thinking_level == old(self).thinking_level
                    && final(self).temperature == old(self).temperature
                    && final(self).scope == old(self).scope,
                None => find_loop(old(self)@.loops, id@) is None && *final(self) == *old(self),
            },
    {
        match position_of_loop(&self.loops, id) {
            Some(k) => Some(&mut self.loops[k]),
            None => None,
        }
    }

    /// The loops whose parent is not a loop of this session (or that have none), in order.
    pub fn root_loops(&self) -> (r: Vec<&LoopRecord>)
        ensures
            r@.map_values(|x: &LoopRecord| x@) == roots(self@.loops, self@.loops),
    {
        let ghost all = self@.loops;
        let mut r: Vec<&LoopRecord> = Vec::new();
        let mut k: usize = 0;
        while k < self.loops.len()
            invariant
                0 <= k <= self.loops.len(),
                all == loops_view(self.loops@),
                r@.map_values(|x: &LoopRecord| x@) == roots(all.take(k as int), all),
            decreases self.loops.len() - k,
        {
            let ghost before = r@.map_values(|x: &LoopRecord| x@);
            assert(all.take(k + 1).drop_last() =~= all.take(k as int));
            assert(all.take(k + 1).last() == self.loops@[k as int]@);
            let keep = match &self.loops[k].parent_loop_id {
                Some(p) => position_of_loop(&self.loops, p.as_str()).is_none(),
                None => true,
            };
            if keep {
                r.push(&self.loops[k]);
                assert(r@.map_values(|x: &LoopRecord| x@) =~= before.push(self.loops@[k as int]@));
            }
            k = k + 1;
        }
        assert(all.take(self.loops.len() as int) =~= all);
        r
    }

    /// The loops of this session whose id is among `ids`, in order.
    fn loops_with_ids(&self, ids: &Vec<String>) -> (r: Vec<&LoopRecord>)
        ensures
            r@.map_values(|x: &LoopRecord| x@) == loops_among(self@.loops, strs_view(ids@)),
    {
        let ghost all = self@.loops;
        let mut r: Vec<&LoopRecord> = Vec::new();
        let mut k: usize = 0;
        while k < self.loops.len()
            invariant
                0 <= k <= self.loops.len(),
                all == loops_view(self.loops@),
                r@.map_values(|x: &LoopRecord| x@) == loops_among(all.take(k as int), strs_view(ids@)),
            decreases self.loops.len() - k,
        {
            let ghost before = r@.map_values(|x: &LoopRecord| x@);
            assert(all.take(k + 1).drop_last() =~= all.take(k as int));
            assert(all.take(k + 1).last() == self.loops@[k as int]@);
            if crate::session::recorder::holds_string(ids, self.loops[k].loop_id.as_str()) {
                r.push(&self.loops[k]);
                assert(r@.map_values(|x: &LoopRecord| x@) =~= before.push(self.loops@[k as int]@));
            }
            k = k + 1;
        }
        assert(all.take(self.loops.len() as int) =~= all);
        r
    }

    /// The loops of this session that the first loop `id` names as its children.
    pub fn children_of(&self, id: &str) -> (r: Vec<&LoopRecord>)
        ensures
            r@.map_values(|x: &LoopRecord| x@) == loops_among(self@.loops, children_ids(self@.loops, id@)),
    {
        let ids: Vec<String> = match position_of_loop(&self.loops, id) {
            Some(k) => crate::types::clone_strings(&self.loops[k].children_loop_ids),
            None => {
                let v: Vec<String> = Vec::new();
                assert(strs_view(v@) =~= seq![]);
                v
            },
        };
        self.loops_with_ids(&ids)
    }

    /// The loops of this session in the parallel group of the first loop `id`.
    pub fn parallel_siblings(&self, id: &str) -> (r: Vec<&LoopRecord>)
        ensures
            r@.map_values(|x: &LoopRecord| x@) == loops_among(self@.loops, group_ids(self@.loops, id@)),
    {
        let ids: Vec<String> = match position_of_loop(&self.loops, id) {
            Some(k) => match &self.loops[k].parallel_group {
                Some(g) => crate::types::clone_strings(&g.all_loop_ids),
                None => {
                    let v: Vec<String> = Vec::new();
                    assert(strs_view(v@) =~= seq![]);
                    v
                },
            },
            None => {
                let v: Vec<String> = Vec::new();
                assert(strs_view(v@) =~= seq![]);
                v
            },
        };
        self.loops_with_ids(&ids)
    }

    /// Whether the walk from `target` back through parent links ends: at a loop
    /// without parent or at an id that names no loop of this session, rather than
    /// going round a cycle.
    pub fn chain_ends(&self, target: &str) -> (r: bool)
        ensures
            r == (chain_back(self@.loops, target@, self@.loops.len() + 1) is Some),
    {
        let ghost ls = self@.loops;
        let mut current = target.to_string();
        let mut fuel_left: usize = self.loops.len();
        loop
            invariant
                ls == loops_view(self.loops@),
                fuel_left <= ls.len(),
                (chain_back(ls, target@, ls.len() + 1) is Some) == (chain_back(ls, current@, (fuel_left + 1) as nat) is Some),
            decreases fuel_left,
        {
            let ghost cv = current@;
            let next: Option<String> = match position_of_loop(&self.loops, current.as_str()) {
                Some(k) => crate::types::clone_opt_string(&self.loops[k].parent_loop_id),
                None => None,
            };
            match next {
                Some(p) => {
                    assert(chain_back(ls, cv, (fuel_left + 1) as nat) == match chain_back(ls, p@, fuel_left as nat) {
                        Some(c) => Some(seq![cv] + c),
                        None => None,
                    });
                    if fuel_left == 0 {
                        assert(chain_back(ls, p@, 0) is None);
                        return false;
                    }
                    current = p;
                    fuel_left = fuel_left - 1;
                },
                None => {
                    return true;
                },
            }
        }
    }

    /// The chain of loop ids from the root to `target`, following parent links.
    /// The walk must end: it stops at a loop without parent or at an id that
    /// names no loop of this session.
    pub fn loop_chain_to(&self, target: &str) -> (r: Vec<String>)
        requires
            chain_back(self@.loops, target@, self@.loops.len() + 1) is Some,
        ensures
            strs_view(r@) == chain_back(self@.loops, target@, self@.loops.len() + 1)->0.reverse(),
    {
        let ghost ls = self@.loops;
        let ghost full = chain_back(ls, target@, ls.len() + 1)->0;
        let mut back: Vec<String> = Vec::new();
        let mut current = target.to_string();
        let ghost mut fuel: nat = ls.len() + 1;
        loop
            invariant_except_break
                chain_back(ls, current@, fuel) is Some,
                strs_view(back@) + chain_back(ls, current@, fuel)->0 == full,
            invariant
                ls == loops_view(self.loops@),
                full == chain_back(ls, target@, ls.len() + 1)->0,
            ensures
                strs_view(back@) == full,
            decreases fuel,
        {
            let ghost bv = strs_view(back@);
            let ghost cv = current@;
            back.push(copy_string(&current));
            assert(strs_view(back@) =~= bv.push(cv));
            let next: Option<String> = match position_of_loop(&self.loops, current.as_str()) {
                Some(k) => crate::types::clone_opt_string(&self.loops[k].parent_loop_id),
                None => None,
            };
            match next {
                Some(p) => {
                    assert(chain_back(ls, cv, fuel)->0 =~= seq![cv] + chain_back(ls, p@, (fuel - 1) as nat)->0);
                    assert(strs_view(back@) + chain_back(ls, p@, (fuel - 1) as nat)->0 =~= full);
                    current = p;
                    proof {
                        fuel = (fuel - 1) as nat;
                    }
                },
                None => {
                    assert(chain_back(ls, cv, fuel)->0 =~= seq![cv]);
                    assert(strs_view(back@) =~= full);
                    break;
                },
            }
        }
        let mut r: Vec<String> = Vec::new();
        let mut k: usize = back.len();
        while k > 0
            invariant
                0 <= k <= back.len(),
                strs_view(back@) == full,
                strs_view(r@) == full.skip(k as int).reverse(),
            decreases k,
        {
            k = k - 1;
            let ghost rv = strs_view(r@);
            r.push(copy_string(&back[k]));
            assert(strs_view(r@) =~= rv.push(full[k as int]));
            assert(full.skip(k as int).reverse() =~= full.skip(k + 1).reverse().push(full[k as int]));
        }
        assert(full.skip(0) =~= full);
        r
    }

    /// The usage of all loops of this session, summed counter by counter.
    pub fn total_usage(&self) -> (r: Usage)
        requires
            usage_sum(self@.loops, |u: Usage| u_input(u)) <= u64::MAX,
            usage_sum(self@.loops, |u: Usage| u_output(u)) <= u64::MAX,
            usage_sum(self@.loops, |u: Usage| u_reasoning(u)) <= u64::MAX,
            usage_sum(self@.loops, |u: Usage| u_cache_read(u)) <= u64::MAX,
            usage_sum(self@.loops, |u: Usage| u_cache_write(u)) <= u64::MAX,
            usage_sum(self@.loops, |u: Usage| u_total(u)) <= u64::MAX,
        ensures
            r.input == usage_sum(self@.loops, |u: Usage| u_input(u)),
            r.output == usage_sum(self@.loops, |u: Usage| u_output(u)),
            r.reasoning == usage_sum(self@.loops, |u: Usage| u_reasoning(u)),
            r.cache_read == usage_sum(self@.loops, |u: Usage| u_cache_read(u)),
            r.cache_write == usage_sum(self@.loops, |u: Usage| u_cache_write(u)),
            r.total_tokens == usage_sum(self@.loops, |u: Usage| u_total(u)),
    {
        let ghost ls = self@.loops;
        let mut acc = Usage::default();
        let mut k: usize = 0;
        while k < self.loops.len()
            invariant
                0 <= k <= self.loops.len(),
                ls == loops_view(self.loops@),
                usage_sum(ls, |u: Usage| u_input(u)) <= u64::MAX,
                usage_sum(ls, |u: Usage| u_output(u)) <= u64::MAX,
                usage_sum(ls, |u: Usage| u_reasoning(u)) <= u64::MAX,
                usage_sum(ls, |u: Usage| u_cache_read(u)) <= u64::MAX,
                usage_sum(ls, |u: Usage| u_cache_write(u)) <= u64::MAX,
                usage_sum(ls, |u: Usage| u_total(u)) <= u64::MAX,
                acc.input == usage_sum(ls.take(k as int), |u: Usage| u_input(u)),
                acc.output == usage_sum(ls.take(k as int), |u: Usage| u_output(u)),
                acc.reasoning == usage_sum(ls.take(k as int), |u: Usage| u_reasoning(u)),
                acc.cache_read == usage_sum(ls.take(k as int), |u: Usage| u_cache_read(u)),
                acc.cache_write == usage_sum(ls.take(k as int), |u: Usage| u_cache_write(u)),
                acc.total_tokens == usage_sum(ls.take(k as int), |u: Usage| u_total(u)),
            decreases self.loops.len() - k,
        {
            proof {
                assert(ls.take(k + 1).drop_last() =~= ls.take(k as int));
                assert(ls.take(k + 1).last() == ls[k as int]);
                lemma_usage_sum_prefix(ls, |u: Usage| u_input(u), k + 1);
                lemma_usage_sum_prefix(ls, |u: Usage| u_output(u), k + 1);
                lemma_usage_sum_prefix(ls, |u: Usage| u_reasoning(u), k + 1);
                lemma_usage_sum_prefix(ls, |u: Usage| u_cache_read(u), k + 1);
                lemma_usage_sum_prefix(ls, |u: Usage| u_cache_write(u), k + 1);
                lemma_usage_sum_prefix(ls, |u: Usage| u_total(u), k + 1);
            }
            let u = self.loops[k].usage;
            acc.input = acc.input + u.input;
            acc.output = acc.output + u.output;
            acc.reasoning = acc.reasoning + u.reasoning;
            acc.cache_read = acc.cache_read + u.cache_read;
            acc.cache_write = acc.cache_write + u.cache_write;
            acc.total_tokens = acc.total_tokens + u.total_tokens;
            k = k + 1;
        }
        assert(ls.take(self.loops.len() as int) =~= ls);
        acc
    }
}

} // verus!
