use phi_core::session::model::Session;
use phi_core::session::recorder::SessionRecorder;
use phi_core::session::{LoopStatus, SessionRecorderConfig};
use phi_core::tools::ToolResult;
use phi_core::types::{AgentEvent, AgentMessage, Content, LlmMessage, Message, StopReason, TurnTrigger, Usage};

fn start(session: &str, lid: &str, parent: Option<&str>, ts: i64) -> AgentEvent {
    AgentEvent::AgentStart {
        agent_id: "agent".into(),
        session_id: session.into(),
        loop_id: lid.into(),
        parent_loop_id: parent.map(|p| p.to_string()),
        continuation_kind: None,
        timestamp: ts,
        metadata: None,
    }
}

fn end(lid: &str, messages: Vec<AgentMessage>, usage: Usage, rejection: Option<&str>) -> AgentEvent {
    AgentEvent::AgentEnd { loop_id: lid.into(), messages, usage, timestamp: 99, rejection: rejection.map(|r| r.to_string()) }
}

fn assistant(model: &str) -> AgentMessage {
    AgentMessage::Llm(LlmMessage::new(Message::Assistant {
        content: vec![Content::Text { text: "ok".into() }],
        stop_reason: StopReason::Stop,
        model: model.into(),
        provider: "prov".into(),
        usage: Usage::default(),
        timestamp: 0,
        error_message: None,
    }))
}

fn user(text: &str) -> AgentMessage {
    AgentMessage::Llm(LlmMessage::new(Message::user(text)))
}

fn usage(input: u64, output: u64) -> Usage {
    Usage { input, output, ..Default::default() }
}

fn session<'a>(r: &'a SessionRecorder, id: &str) -> &'a Session {
    r.get_session(id).expect("session recorded")
}

#[test]
fn records_a_loop_with_its_turn_and_events() {
    let mut r = SessionRecorder::new(SessionRecorderConfig::default());
    r.on_event(start("s1", "s1.cfg.0", None, 10));
    r.on_event(AgentEvent::TurnStart { loop_id: "s1.cfg.0".into(), turn_index: 0, timestamp: 11, triggered_by: TurnTrigger::Prompt });
    r.on_event(AgentEvent::MessageEnd { loop_id: "s1.cfg.0".into(), message: user("hi") });
    r.on_event(AgentEvent::MessageEnd { loop_id: "s1.cfg.0".into(), message: assistant("m1") });
    r.on_event(AgentEvent::TurnEnd {
        loop_id: "s1.cfg.0".into(),
        message: assistant("m1"),
        usage: usage(3, 4),
        timestamp: 12,
        tool_results: vec![],
    });
    assert!(r.current_loop("s1.cfg.0").unwrap().config.is_some());
    r.on_event(end("s1.cfg.0", vec![user("hi"), assistant("m1")], usage(3, 4), None));

    assert!(r.current_loop("s1.cfg.0").is_none());
    let s = session(&r, "s1");
    assert_eq!(s.created_at, 10);
    assert_eq!(s.loops.len(), 1);
    let l = &s.loops[0];
    assert_eq!(l.status, LoopStatus::Completed);
    assert_eq!(l.ended_at, Some(99));
    assert_eq!(l.messages.len(), 2);
    assert_eq!(l.usage, usage(3, 4));
    let seqs: Vec<u64> = l.events.iter().map(|e| e.sequence).collect();
    assert_eq!(seqs, vec![0, 1, 2, 3, 4, 5]);
    assert_eq!(l.turn_count(), 1);
    let t = l.get_turn(0).unwrap();
    assert_eq!(t.index(), 0);
    assert_eq!(t.input_messages.len(), 1);
    assert_eq!(t.duration(), 1);
    assert!(!t.has_tool_calls());
    assert_eq!(t.all_messages().len(), 2);
    let c = l.config.as_ref().unwrap();
    assert_eq!(c.model, "m1");
    assert_eq!(c.provider, "prov");
    assert_eq!(c.config_id, Some("cfg".to_string()));
}

#[test]
fn rejected_loop_and_streaming_events() {
    let mut r = SessionRecorder::new(SessionRecorderConfig::default());
    r.on_event(start("s", "s.c.0", None, 0));
    r.on_event(AgentEvent::MessageUpdate {
        loop_id: "s.c.0".into(),
        message: user("x"),
        delta: phi_core::provider::events::StreamEvent::Start,
    });
    r.on_event(end("s.c.0", vec![], Usage::default(), Some("blocked")));
    let l = &session(&r, "s").loops[0];
    assert_eq!(l.status, LoopStatus::Rejected);
    assert_eq!(l.rejection, Some("blocked".to_string()));
    assert_eq!(l.events.len(), 2);

    let mut r = SessionRecorder::new(SessionRecorderConfig { include_streaming_events: true });
    r.on_event(start("s", "s.c.0", None, 0));
    r.on_event(AgentEvent::MessageUpdate {
        loop_id: "s.c.0".into(),
        message: user("x"),
        delta: phi_core::provider::events::StreamEvent::Start,
    });
    assert_eq!(r.current_loop("s.c.0").unwrap().events.len(), 2);
}

#[test]
fn continuations_link_parent_and_child() {
    let mut r = SessionRecorder::new(SessionRecorderConfig::default());
    r.on_event(start("s", "s.c.0", None, 0));
    r.on_event(end("s.c.0", vec![], usage(1, 2), None));
    r.on_event(start("s", "s.c.1", Some("s.c.0"), 1));
    r.on_event(end("s.c.1", vec![], usage(10, 20), None));
    let s = session(&r, "s");
    assert_eq!(s.loops[0].children_loop_ids, vec!["s.c.1".to_string()]);
    assert_eq!(s.children_of("s.c.0").len(), 1);
    assert_eq!(s.root_loops().len(), 1);
    assert_eq!(s.loop_chain_to("s.c.1"), vec!["s.c.0".to_string(), "s.c.1".to_string()]);
    let total = s.total_usage();
    assert_eq!(total.input, 11);
    assert_eq!(total.output, 22);
    assert!(s.get_loop("s.c.1").is_some());
    assert!(s.get_loop("nope").is_none());
}

#[test]
fn sub_agent_spawn_is_linked_both_ways() {
    let mut r = SessionRecorder::new(SessionRecorderConfig::default());
    r.on_event(start("p", "p.c.0", None, 0));
    r.on_event(start("child", "child.c.0", Some("p.c.0"), 1));
    {
        let s = session(&r, "child");
        let sr = s.parent_spawn_ref.as_ref().unwrap();
        assert_eq!(sr.parent_session_id, "p");
        assert_eq!(sr.tool_call_id, "");
    }
    r.on_event(AgentEvent::ToolExecutionEnd {
        loop_id: "p.c.0".into(),
        tool_call_id: "tc9".into(),
        tool_name: "spawn".into(),
        result: ToolResult { content: vec![], details: "null".into(), child_loop_id: Some("child.c.0".into()) },
        is_error: false,
        child_loop_id: Some("child.c.0".into()),
    });
    let refs = &r.current_loop("p.c.0").unwrap().child_loop_refs;
    assert_eq!(refs.len(), 1);
    assert_eq!(refs[0].child_session_id, "child");
    let sr = session(&r, "child").parent_spawn_ref.as_ref().unwrap();
    assert_eq!(sr.tool_call_id, "tc9");
    assert_eq!(sr.tool_name, "spawn");
    assert_eq!(sr.parent_loop_id, "p.c.0");
}

#[test]
fn parallel_groups_mark_the_selected_branch() {
    let mut r = SessionRecorder::new(SessionRecorderConfig::default());
    r.on_event(AgentEvent::ParallelLoopStart { loop_ids: vec!["s.a.0".into(), "s.b.0".into()], timestamp: 0 });
    r.on_event(start("s", "s.a.0", None, 1));
    r.on_event(start("s", "s.b.0", None, 1));
    r.on_event(end("s.a.0", vec![], Usage::default(), None));
    r.on_event(AgentEvent::ParallelLoopEnd {
        selected_loop_id: "s.b.0".into(),
        selected_config_index: 1,
        evaluation_usage: usage(5, 5),
        timestamp: 2,
    });
    let a = session(&r, "s").loops[0].parallel_group.as_ref().unwrap();
    assert!(!a.is_selected);
    assert_eq!(a.selected_config_index, 1);
    assert_eq!(a.all_loop_ids, vec!["s.a.0".to_string(), "s.b.0".to_string()]);
    let b = r.current_loop("s.b.0").unwrap().parallel_group.as_ref().unwrap();
    assert!(b.is_selected);
    r.on_event(end("s.b.0", vec![], Usage::default(), None));
    assert_eq!(session(&r, "s").parallel_siblings("s.a.0").len(), 2);
}

#[test]
fn flush_aborts_open_loops_and_checkpoint_keeps_them() {
    let mut r = SessionRecorder::new(SessionRecorderConfig::default());
    r.on_event(start("a", "a.c.0", None, 0));
    r.on_event(start("b", "b.c.0", None, 0));
    r.on_event(end("b.c.0", vec![], Usage::default(), None));
    assert_eq!(r.checkpoint(), 1);
    assert_eq!(r.sessions().len(), 2);
    let done = r.drain_completed();
    assert_eq!(done.len(), 1);
    assert_eq!(done[0].session_id, "b");
    r.flush();
    let done = r.drain_completed();
    assert_eq!(done.len(), 1);
    assert_eq!(done[0].loops[0].status, LoopStatus::Aborted);
    assert!(r.sessions().is_empty());
}

use phi_core::context::orchestration::{build_context_from_session, compact_session_loops, resolve_scope};
use phi_core::context::strategy::{BlockCompactionParams, CompactionScope, DefaultBlockCompaction};
use phi_core::context::token::HeuristicTokenCounter;
use phi_core::session::model::{LoopRecord, SessionFormation};
use phi_core::session::SessionScope;

fn record(id: &str, parent: Option<&str>, msgs: Vec<AgentMessage>) -> LoopRecord {
    LoopRecord {
        loop_id: id.into(),
        session_id: "s".into(),
        agent_id: "a".into(),
        parent_loop_id: parent.map(|p| p.to_string()),
        continuation_kind: None,
        started_at: 0,
        ended_at: None,
        status: LoopStatus::Completed,
        rejection: None,
        config: None,
        messages: msgs,
        turns: vec![],
        usage: Usage::default(),
        metadata: None,
        events: vec![],
        next_sequence: 0,
        children_loop_ids: vec![],
        child_loop_refs: vec![],
        parallel_group: None,
        compaction_block: None,
    }
}

fn three_loop_session() -> Session {
    Session {
        session_id: "s".into(),
        agent_id: "a".into(),
        created_at: 0,
        last_active_at: 0,
        formation: SessionFormation::FirstLoop { timestamp: 0 },
        parent_spawn_ref: None,
        thinking_level: None,
        temperature: None,
        scope: SessionScope::Ephemeral,
        loops: vec![
            record("s.c.0", None, vec![user("zero")]),
            record("s.c.1", Some("s.c.0"), vec![user("one")]),
            record("s.c.2", Some("s.c.1"), vec![user("two"), assistant("m")]),
        ],
    }
}

fn texts(msgs: &[AgentMessage]) -> Vec<String> {
    msgs.iter()
        .map(|m| match m {
            AgentMessage::Llm(LlmMessage { message: Message::User { content, .. }, .. }) => match &content[0] {
                Content::Text { text } => text.clone(),
                _ => "?".into(),
            },
            _ => "*".into(),
        })
        .collect()
}

#[test]
fn context_loads_the_chain_within_scope() {
    let s = three_loop_session();
    let all = build_context_from_session(&s, "s.c.2", CompactionScope::FixedCount(3), 1000, &HeuristicTokenCounter);
    assert_eq!(texts(&all), vec!["zero", "one", "two", "*"]);
    let one_back = build_context_from_session(&s, "s.c.2", CompactionScope::FixedCount(1), 1000, &HeuristicTokenCounter);
    assert_eq!(texts(&one_back), vec!["one", "two", "*"]);
    let chain = s.loop_chain_to("s.c.2");
    assert_eq!(resolve_scope(&s, &chain, CompactionScope::TokenBudget, 1000, &HeuristicTokenCounter), 2);
    assert_eq!(resolve_scope(&s, &chain, CompactionScope::TokenBudget, 6, &HeuristicTokenCounter), 1);
    assert_eq!(resolve_scope(&s, &chain, CompactionScope::TokenBudget, 0, &HeuristicTokenCounter), 0);
}

#[test]
fn compaction_sets_blocks_on_current_and_earlier_loops() {
    let mut s = three_loop_session();
    let before: Vec<(String, usize)> = s.loops.iter().map(|l| (l.loop_id.clone(), l.messages.len())).collect();
    let params = BlockCompactionParams { keep_first_turns: 2, keep_recent_turns: 10, max_summary_tokens: 2000, tool_output_max_lines: 50 };
    compact_session_loops(&mut s, "s.c.2", &DefaultBlockCompaction, &params, CompactionScope::FixedCount(1), 1000, &HeuristicTokenCounter);
    let after: Vec<(String, usize)> = s.loops.iter().map(|l| (l.loop_id.clone(), l.messages.len())).collect();
    assert_eq!(before, after);
    assert!(s.loops[0].compaction_block.is_none());
    let earlier = s.loops[1].compaction_block.as_ref().unwrap();
    assert!(earlier.keep_first.is_none() && earlier.keep_recent.is_none());
    let current = s.loops[2].compaction_block.as_ref().unwrap();
    assert!(current.keep_first.is_some());
    assert!(current.keep_recent.is_some());
    let ctx = build_context_from_session(&s, "s.c.2", CompactionScope::FixedCount(1), 1000, &HeuristicTokenCounter);
    assert!(!ctx.is_empty());
}

#[test]
fn get_loop_mut_changes_that_loop_only() {
    let mut r = SessionRecorder::new(SessionRecorderConfig::default());
    r.on_event(start("s", "s.c.0", None, 0));
    r.on_event(end("s.c.0", vec![], usage(1, 2), None));
    r.on_event(start("s", "s.c.1", Some("s.c.0"), 1));
    r.on_event(end("s.c.1", vec![], usage(10, 20), None));
    r.flush();
    let mut sessions = r.drain_completed();
    assert_eq!(sessions.len(), 1);
    let s = &mut sessions[0];
    assert!(s.get_loop_mut("missing").is_none());
    {
        let l = s.get_loop_mut("s.c.1").unwrap();
        l.status = LoopStatus::Aborted;
    }
    assert_eq!(s.get_loop("s.c.1").unwrap().status, LoopStatus::Aborted);
    assert_eq!(s.get_loop("s.c.0").unwrap().status, LoopStatus::Completed);
    assert_eq!(s.loops.len(), 2);
}

#[test]
fn filtered_streaming_events_leave_a_gap_in_the_numbering() {
    let mut r = SessionRecorder::new(SessionRecorderConfig::default());
    r.on_event(start("s", "s.c.0", None, 0));
    r.on_event(AgentEvent::MessageUpdate {
        loop_id: "s.c.0".into(),
        message: user("x"),
        delta: phi_core::provider::events::StreamEvent::Start,
    });
    r.on_event(AgentEvent::MessageEnd { loop_id: "s.c.0".into(), message: user("x") });
    let seqs: Vec<u64> = r.current_loop("s.c.0").unwrap().events.iter().map(|e| e.sequence).collect();
    assert_eq!(seqs, vec![0, 2]);
}

#[test]
fn checkpointed_session_is_reopened_not_duplicated() {
    let mut r = SessionRecorder::new(SessionRecorderConfig::default());
    r.on_event(start("s", "s.c.0", None, 0));
    r.on_event(end("s.c.0", vec![], usage(1, 2), None));
    assert_eq!(r.checkpoint(), 1);
    r.on_event(start("s", "s.c.1", Some("s.c.0"), 5));
    assert_eq!(r.sessions().iter().filter(|x| x.session_id == "s").count(), 1);
    r.flush();
    assert_eq!(r.sessions().iter().filter(|x| x.session_id == "s").count(), 1);
    let s = r.get_session("s").unwrap();
    assert_eq!(s.loops.len(), 2);
    assert_eq!(s.loops[1].status, LoopStatus::Aborted);
}

#[test]
fn chain_ends_unless_the_parents_go_round() {
    let mut s = three_loop_session();
    assert!(s.chain_ends("s.c.2"));
    assert!(s.chain_ends("s.c.0"));
    assert!(s.chain_ends("unknown"));
    s.loops[0].parent_loop_id = Some("s.c.2".into());
    assert!(!s.chain_ends("s.c.2"));
    assert!(!s.chain_ends("s.c.0"));
}
