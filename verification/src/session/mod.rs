//! Session records: the identifiers a loop id encodes, the configuration a
//! loop ran with, and the small records that link loops and sessions.
use vstd::prelude::*;
use crate::types::{AgentMessage, AgentMessageV, LlmMessageV, Message, MessageV, Usage, msgs_view};
use crate::strs::{chars_of, copy_string, string_of, to_owned_string};
use crate::context::skills::frontmatter::sub_chars;

pub mod model;
pub mod recorder;

verus! {

broadcast use vstd::string::group_string_axioms;

/// Where a loop stands.
#[derive(PartialEq, Eq, Structural, Clone, Copy, Debug)]
pub enum LoopStatus {
    Pending,
    Running,
    Completed,
    Rejected,
    Aborted,
}

/// Whether a session is kept after its agent stops.
#[derive(PartialEq, Eq, Structural, Clone, Copy, Debug)]
pub enum SessionScope {
    Ephemeral,
    Persistent,
}

impl Default for SessionScope {
    fn default() -> (r: Self)
        ensures
            r == SessionScope::Ephemeral,
    {
        SessionScope::Ephemeral
    }
}

/// The model and provider a loop ran with, and the configuration id encoded in its loop id.
pub struct LoopConfigSnapshot {
    pub model: String,
    pub provider: String,
    pub config_id: Option<String>,
}

/// A loop spawned by a tool call of another loop.
pub struct ChildLoopRef {
    pub tool_call_id: String,
    pub tool_name: String,
    pub child_loop_id: String,
    pub child_session_id: String,
}

/// The tool call of a parent session that spawned a session.
pub struct SpawnRef {
    pub parent_session_id: String,
    pub parent_loop_id: String,
    pub tool_call_id: String,
    pub tool_name: String,
}

/// A loop's membership in a group of loops run in parallel, one of which is kept.
pub struct ParallelGroupRecord {
    pub all_loop_ids: Vec<String>,
    pub selected_loop_id: String,
    pub selected_config_index: usize,
    pub evaluation_usage: Usage,
    pub is_selected: bool,
}

/// What a session recorder keeps.
pub struct SessionRecorderConfig {
    /// Whether streaming deltas are recorded as events.
    pub include_streaming_events: bool,
}

impl Default for SessionRecorderConfig {
    fn default() -> (r: Self)
        ensures
            !r.include_streaming_events,
    {
        SessionRecorderConfig { include_streaming_events: false }
    }
}

/// A store of sessions as files in a directory.
pub struct FileSystemSessionStore {
    dir: String,
}

impl FileSystemSessionStore {
    /// A store rooted at `dir`; the directory is created when first needed.
    pub fn new(dir: String) -> (r: FileSystemSessionStore)
        ensures
            r.dir_view() == dir@,
    {
        FileSystemSessionStore { dir }
    }

    /// The directory the sessions are stored in.
    pub closed spec fn dir_view(&self) -> Seq<char> {
        self.dir@
    }

    /// The directory the sessions are stored in.
    pub fn dir(&self) -> (r: &str)
        ensures
            r@ == self.dir_view(),
    {
        self.dir.as_str()
    }
}

/// The index of the first `c` in `s`.
pub open spec fn first_index_of(s: Seq<char>, c: char) -> Option<nat>
    decreases s.len(),
{
    if s.len() == 0 {
        None
    } else if s[0] == c {
        Some(0)
    } else {
        match first_index_of(s.drop_first(), c) {
            Some(i) => Some(i + 1),
            None => None,
        }
    }
}

/// The index of the last `c` in `s`.
pub open spec fn last_index_of(s: Seq<char>, c: char) -> Option<nat>
    decreases s.len(),
{
    if s.len() == 0 {
        None
    } else if s.last() == c {
        Some((s.len() - 1) as nat)
    } else {
        last_index_of(s.drop_last(), c)
    }
}

/// The session a loop belongs to: its loop id up to the first `.`.
pub open spec fn session_of_loop(loop_id: Seq<char>) -> Seq<char> {
    match first_index_of(loop_id, '.') {
        Some(p) => loop_id.take(p as int),
        None => loop_id,
    }
}

/// The configuration segment of a loop id: between its first and its last `.`.
pub open spec fn config_of_loop(loop_id: Seq<char>) -> Option<Seq<char>> {
    match first_index_of(loop_id, '.') {
        None => None,
        Some(f) => {
            let after = loop_id.skip(f as int + 1);
            match last_index_of(after, '.') {
                None => None,
                Some(l) => Some(after.take(l as int)),
            }
        },
    }
}

proof fn lemma_first_index_of(s: Seq<char>, c: char)
    ensures
        match first_index_of(s, c) {
            Some(i) => i < s.len() && s[i as int] == c && forall|j: int| 0 <= j < i ==> s[j] != c,
            None => forall|j: int| 0 <= j < s.len() ==> s[j] != c,
        },
    decreases s.len(),
{
    if s.len() > 0 && s[0] != c {
        lemma_first_index_of(s.drop_first(), c);
        assert forall|j: int| 1 <= j < s.len() implies s[j] == s.drop_first()[j - 1] by {}
    }
}

proof fn lemma_last_index_of(s: Seq<char>, c: char)
    ensures
        match last_index_of(s, c) {
            Some(i) => i < s.len() && s[i as int] == c && forall|j: int| i < j < s.len() ==> s[j] != c,
            None => forall|j: int| 0 <= j < s.len() ==> s[j] != c,
        },
    decreases s.len(),
{
    if s.len() > 0 && s.last() != c {
        lemma_last_index_of(s.drop_last(), c);
        assert forall|j: int| 0 <= j < s.len() - 1 implies s[j] == s.drop_last()[j] by {}
    }
}

pub(crate) fn find_first(v: &Vec<char>, c: char) -> (r: Option<usize>)
    ensures
        match r {
            Some(i) => first_index_of(v@, c) == Some(i as nat) && i < v.len(),
            None => first_index_of(v@, c) is None,
        },
{
    proof {
        lemma_first_index_of(v@, c);
    }
    let mut i: usize = 0;
    while i < v.len()
        invariant
            0 <= i <= v.len(),
            forall|j: int| 0 <= j < i ==> v@[j] != c,
            match first_index_of(v@, c) {
                Some(k) => k < v.len() && v@[k as int] == c && forall|j: int| 0 <= j < k ==> v@[j] != c,
                None => forall|j: int| 0 <= j < v.len() ==> v@[j] != c,
            },
        decreases v.len() - i,
    {
        if v[i] == c {
            return Some(i);
        }
        i = i + 1;
    }
    None
}

fn find_last(v: &Vec<char>, from: usize, c: char) -> (r: Option<usize>)
    requires
        from <= v.len(),
    ensures
        match r {
            Some(i) => last_index_of(v@.skip(from as int), c) == Some((i - from) as nat) && from <= i < v.len(),
            None => last_index_of(v@.skip(from as int), c) is None,
        },
{
    let ghost s = v@.skip(from as int);
    proof {
        lemma_last_index_of(s, c);
    }
    let mut i = v.len();
    while i > from
        invariant
            from <= i <= v.len(),
            s == v@.skip(from as int),
            forall|j: int| i <= j < v.len() ==> v@[j] != c,
            match last_index_of(s, c) {
                Some(k) => k < s.len() && s[k as int] == c && forall|j: int| k < j < s.len() ==> s[j] != c,
                None => forall|j: int| 0 <= j < s.len() ==> s[j] != c,
            },
        decreases i - from,
    {
        if v[i - 1] == c {
            proof {
                assert(s[i - 1 - from] == c);
                if let Some(k) = last_index_of(s, c) {
                    if k + from < i - 1 {
                        assert(s[i - 1 - from] != c);
                    }
                    if k + from > i - 1 {
                        assert(v@[k + from] == s[k as int]);
                    }
                }
            }
            return Some(i - 1);
        }
        i = i - 1;
    }
    proof {
        if let Some(k) = last_index_of(s, c) {
            assert(v@[k + from] == s[k as int]);
        }
    }
    None
}

/// The session id a loop id starts with: everything before its first `.`.
pub fn session_id_from_loop_id(loop_id: &str) -> (r: String)
    ensures
        r@ == session_of_loop(loop_id@),
{
    let v = chars_of(loop_id);
    match find_first(&v, '.') {
        Some(p) => string_of(&sub_chars(&v, 0, p)),
        None => to_owned_string(loop_id),
    }
}

/// The configuration segment of a loop id: between its first and last `.`;
/// none when it has fewer than two.
pub fn config_segment_from_loop_id(loop_id: &str) -> (r: Option<String>)
    ensures
        match r {
            Some(x) => config_of_loop(loop_id@) == Some(x@),
            None => config_of_loop(loop_id@) is None,
        },
{
    let v = chars_of(loop_id);
    let f = match find_first(&v, '.') {
        Some(f) => f,
        None => {
            return None;
        },
    };
    let l = match find_last(&v, f + 1, '.') {
        Some(l) => l,
        None => {
            return None;
        },
    };
    let seg = sub_chars(&v, f + 1, l);
    assert(seg@ =~= v@.skip(f + 1).take((l - (f + 1)) as int));
    Some(string_of(&seg))
}

/// The model and provider of the first assistant message in `ms`.
pub open spec fn first_assistant(ms: Seq<AgentMessageV>) -> Option<(Seq<char>, Seq<char>)>
    decreases ms.len(),
{
    if ms.len() == 0 {
        None
    } else {
        match ms[0] {
            AgentMessageV::Llm(LlmMessageV { message: MessageV::Assistant { model, provider, .. }, .. }) => Some((model, provider)),
            _ => first_assistant(ms.drop_first()),
        }
    }
}

/// The configuration a loop ran with, read from its first assistant message:
/// its model and provider, and the configuration segment of the loop id.
pub fn extract_config_snapshot(messages: &[AgentMessage], loop_id: &str) -> (r: Option<LoopConfigSnapshot>)
    ensures
        match (r, first_assistant(msgs_view(messages@))) {
            (None, None) => true,
            (Some(s), Some((model, provider))) => s.model@ == model && s.provider@ == provider
                && (match s.config_id {
                    Some(c) => config_of_loop(loop_id@) == Some(c@),
                    None => config_of_loop(loop_id@) is None,
                }),
            _ => false,
        },
{
    let ghost ms = msgs_view(messages@);
    let mut i: usize = 0;
    proof {
        assert(ms.skip(0) =~= ms);
    }
    while i < messages.len()
        invariant
            0 <= i <= messages.len(),
            ms == msgs_view(messages@),
            first_assistant(ms) == first_assistant(ms.skip(i as int)),
        decreases messages.len() - i,
    {
        assert(ms.skip(i as int)[0] == messages@[i as int]@);
        assert(ms.skip(i as int).drop_first() =~= ms.skip(i + 1));
        if let AgentMessage::Llm(lm) = &messages[i] {
            if let Message::Assistant { model, provider, .. } = &lm.message {
                return Some(LoopConfigSnapshot {
                    model: copy_string(model),
                    provider: copy_string(provider),
                    config_id: config_segment_from_loop_id(loop_id),
                });
            }
        }
        i = i + 1;
    }
    None
}

/// A loop id built from a session id, a configuration id and a counter, each
/// free of `.`, gives all three back.
pub proof fn law_loop_id_parts(session: Seq<char>, config: Seq<char>, counter: Seq<char>)
    requires
        forall|i: int| 0 <= i < session.len() ==> session[i] != '.',
        forall|i: int| 0 <= i < counter.len() ==> counter[i] != '.',
    ensures
        session_of_loop(session + seq!['.'] + config + seq!['.'] + counter) == session,
        config_of_loop(session + seq!['.'] + config + seq!['.'] + counter) == Some(config),
{
    let id = session + seq!['.'] + config + seq!['.'] + counter;
    lemma_first_index_of(id, '.');
    match first_index_of(id, '.') {
        Some(f) => {
            if f < session.len() {
                assert(id[f as int] == session[f as int]);
            }
            if f > session.len() {
                assert(id[session.len() as int] == '.');
            }
            assert(f == session.len());
            assert(id.take(f as int) =~= session);
            let after = id.skip(f as int + 1);
            assert(after =~= config + seq!['.'] + counter);
            lemma_last_index_of(after, '.');
            match last_index_of(after, '.') {
                Some(l) => {
                    let k = config.len() as int;
                    assert(after[k] == '.');
                    if l > k {
                        assert(after[l as int] == counter[l - k - 1]);
                    }
                    assert(l == k);
                    assert(after.take(l as int) =~= config);
                },
                None => {
                    assert(after[config.len() as int] == '.');
                },
            }
        },
        None => {
            assert(id[session.len() as int] == '.');
        },
    }
}

} // verus!
