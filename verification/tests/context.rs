use phi_core::context::strategy::{CompactionStrategy, DefaultCompaction};
use phi_core::types::{NodeId, TurnId};
use phi_core::context::compact_messages::keep_within_budget_with_counter;
use phi_core::context::compaction::TurnMap;
use phi_core::context::strategy::{BlockCompactionParams, DefaultBlockCompaction};
use phi_core::context::execution::count_limit_reason;
use phi_core::context::compact_messages::{
    compact_messages, level1_truncate_tool_outputs, level2_summarize_old_turns, summarize_old_turns_at,
    LegacyCompactionLimits,
};
use phi_core::context::lines::truncate_text_head_tail;
use phi_core::context::token::{estimate_tokens, message_tokens, resolve_counter, total_tokens, HeuristicTokenCounter, TokenCounter};
use phi_core::context::tracker::ContextTracker;
use phi_core::types::{AgentMessage, Content, LlmMessage, Message, StopReason, Usage};

fn user(text: &str) -> AgentMessage {
    AgentMessage::Llm(LlmMessage::new(Message::user(text)))
}

fn numbered(prefix: &str, n: usize) -> String {
    (1..=n).map(|i| format!("{} {}", prefix, i)).collect::<Vec<_>>().join("\n")
}

#[test]
fn test_estimate_tokens() {
    assert!(estimate_tokens("hello world") > 0);
    assert!(estimate_tokens("hello world") < 10);
    assert_eq!(estimate_tokens(""), 0);
}

#[test]
fn estimate_tokens_is_a_quarter_of_the_bytes_rounded_up() {
    assert_eq!(estimate_tokens("hello world"), 3);
    assert_eq!(estimate_tokens("abcd"), 1);
    assert_eq!(estimate_tokens("abcde"), 2);
}

#[test]
fn test_truncate_head_tail() {
    let text = numbered("line", 100);
    let result = truncate_text_head_tail(&text, 10);
    assert!(result.contains("line 1"));
    assert!(result.contains("line 5"));
    assert!(result.contains("line 100"));
    assert!(result.contains("truncated"));
    assert!(!result.contains("line 50"));
}

#[test]
fn truncate_head_tail_keeps_short_text() {
    let text = numbered("line", 5);
    assert_eq!(truncate_text_head_tail(&text, 10), text);
}

#[test]
fn test_level1_truncation() {
    let big_output = numbered("output line", 200);
    let messages = vec![
        user("do something"),
        AgentMessage::Llm(LlmMessage::new(Message::ToolResult {
            tool_call_id: "tc-1".into(),
            tool_name: "bash".into(),
            content: vec![Content::Text { text: big_output }],
            is_error: false,
            timestamp: 0,
        })),
    ];

    let compacted = level1_truncate_tool_outputs(&messages, 20);
    let tool_msg = &compacted[1];
    if let AgentMessage::Llm(LlmMessage { message: Message::ToolResult { content, .. }, .. }) = tool_msg {
        if let Content::Text { text } = &content[0] {
            assert!(text.contains("truncated"));
            assert!(text.contains("output line 1"));
            assert!(text.contains("output line 200"));
            assert!(text.lines().count() < 50);
        } else {
            panic!("expected text content");
        }
    } else {
        panic!("expected tool result");
    }
}

#[test]
fn test_compact_within_budget() {
    let messages = vec![user("Hello"), user("World")];
    let limits = LegacyCompactionLimits {
        max_context_tokens: 100_000,
        system_prompt_tokens: 4_000,
        keep_recent: 10,
        keep_first: 2,
        tool_output_max_lines: 50,
    };
    let result = compact_messages(messages, &limits);
    assert_eq!(result.len(), 2);
}

#[test]
fn test_compact_drops_middle_when_needed() {
    let mut messages = Vec::new();
    for i in 0..100 {
        messages.push(user(&format!("Message {} {}", i, "x".repeat(200))));
    }
    let limits = LegacyCompactionLimits {
        max_context_tokens: 500,
        system_prompt_tokens: 100,
        keep_recent: 5,
        keep_first: 2,
        tool_output_max_lines: 20,
    };
    let result = compact_messages(messages, &limits);
    assert!(result.len() < 100);
    assert!(result.len() >= 2);
}

#[test]
fn level2_keeps_recent_messages() {
    let messages: Vec<AgentMessage> = (0..6).map(|i| user(&format!("m{}", i))).collect();
    let out = level2_summarize_old_turns(&messages, 10);
    assert_eq!(out.len(), 6);
}

#[test]
fn level2_summarizes_assistant_and_drops_tool_results() {
    let messages = vec![
        user("a"),
        AgentMessage::Llm(LlmMessage::new(Message::Assistant {
            content: vec![Content::Text { text: "hi".into() }],
            stop_reason: StopReason::Stop,
            model: "m".into(),
            provider: "p".into(),
            usage: Usage::default(),
            timestamp: 0,
            error_message: None,
        })),
        AgentMessage::Llm(LlmMessage::new(Message::ToolResult {
            tool_call_id: "t".into(),
            tool_name: "bash".into(),
            content: vec![Content::Text { text: "out".into() }],
            is_error: false,
            timestamp: 0,
        })),
        user("b"),
    ];
    let out = summarize_old_turns_at(&messages, 1, 7);
    assert_eq!(out.len(), 3);
    match &out[1] {
        AgentMessage::Llm(LlmMessage { message: Message::User { content, timestamp }, .. }) => {
            assert_eq!(*timestamp, 7);
            match &content[0] {
                Content::Text { text } => assert_eq!(text, "[Summary] hi"),
                _ => panic!("expected text"),
            }
        },
        _ => panic!("expected a user message"),
    }
}

#[test]
fn test_context_tracker_no_usage() {
    let tracker = ContextTracker::new();
    let messages = vec![user("Hello"), user("World")];
    let tokens = tracker.estimate_context_tokens(&messages);
    assert!(tokens > 0);
    assert_eq!(tokens, total_tokens(&messages));
}

#[test]
fn test_context_tracker_with_usage() {
    let mut tracker = ContextTracker::new();
    let messages = vec![
        user("Hello"),
        AgentMessage::Llm(LlmMessage::new(Message::Assistant {
            content: vec![Content::Text { text: "Hi there!".into() }],
            stop_reason: StopReason::Stop,
            model: "test".into(),
            provider: "test".into(),
            usage: Usage { input: 100, output: 50, ..Default::default() },
            timestamp: 0,
            error_message: None,
        })),
        user("Follow up question here"),
    ];
    tracker.record_usage(&Usage { input: 100, output: 50, ..Default::default() }, 1);
    let tokens = tracker.estimate_context_tokens(&messages);
    let trailing_estimate = message_tokens(&messages[2]);
    assert_eq!(tokens, 150 + trailing_estimate);
}

#[test]
fn test_context_tracker_reset() {
    let mut tracker = ContextTracker::new();
    tracker.record_usage(&Usage { input: 1000, output: 500, ..Default::default() }, 5);
    tracker.reset();
    let messages = vec![user("test")];
    assert_eq!(tracker.estimate_context_tokens(&messages), total_tokens(&messages));
}

#[test]
fn count_limits_stop_turns_first_then_tokens() {
    assert_eq!(count_limit_reason(2, 3, 500, 1000), None);
    assert_eq!(count_limit_reason(3, 3, 300, 1000), Some("Max turns reached (3/3)".to_string()));
    assert_eq!(count_limit_reason(3, 3, 5000, 1000), Some("Max turns reached (3/3)".to_string()));
    assert_eq!(count_limit_reason(1, 3, 1000, 1000), Some("Max tokens reached (1000/1000)".to_string()));
}

#[test]
fn resolve_counter_falls_back_to_the_heuristic() {
    let none = resolve_counter::<HeuristicTokenCounter>(None);
    assert_eq!(none.estimate_text("abcdefghi"), 3);
    let given = resolve_counter(Some(&HeuristicTokenCounter));
    assert_eq!(given.estimate_text("abcd"), 1);
    assert_eq!(given.estimate_text(""), 0);
}

#[test]
fn level1_keeps_turn_node_and_tags_of_tool_results() {
    let big_output = numbered("output line", 200);
    let msg = AgentMessage::Llm(LlmMessage {
        message: Message::ToolResult {
            tool_call_id: "tc-1".into(),
            tool_name: "bash".into(),
            content: vec![Content::Text { text: big_output }],
            is_error: false,
            timestamp: 7,
        },
        turn_id: Some(TurnId { loop_id: "l".into(), turn_index: 3 }),
        node_id: Some(NodeId(5)),
        parent_id: Some(NodeId(4)),
        tags: vec!["keep".to_string()],
    });
    let out = level1_truncate_tool_outputs(&vec![msg], 20);
    match &out[0] {
        AgentMessage::Llm(lm) => {
            assert_eq!(lm.turn_id.as_ref().unwrap().turn_index, 3);
            assert_eq!(lm.turn_id.as_ref().unwrap().loop_id, "l");
            assert_eq!(lm.node_id, Some(NodeId(5)));
            assert_eq!(lm.parent_id, Some(NodeId(4)));
            assert_eq!(lm.tags, vec!["keep".to_string()]);
        },
        _ => panic!("expected an LLM message"),
    }
}

#[test]
fn kept_suffix_leaves_room_for_the_marker() {
    let long = "x".repeat(400);
    let messages = vec![user(&long), user(&long), user(&long)];
    let budget = message_tokens(&messages[2]);
    let kept = keep_within_budget_with_counter(&messages, budget, &HeuristicTokenCounter, 0);
    assert!(total_tokens(&kept) <= budget);
    assert_eq!(kept.len(), 1);
    match &kept[0] {
        AgentMessage::Llm(lm) => match &lm.message {
            Message::User { content, .. } => match &content[0] {
                Content::Text { text } => assert_eq!(text, "[Context compacted: 3 messages removed]"),
                _ => panic!("expected text"),
            },
            _ => panic!("expected the marker"),
        },
        _ => panic!("expected the marker"),
    }
    let all_fit = keep_within_budget_with_counter(&messages, budget * 3, &HeuristicTokenCounter, 0);
    assert_eq!(all_fit.len(), 3);
}

#[test]
fn keep_first_of_zero_turns_keeps_none() {
    let msg = |i: u32| AgentMessage::Llm(LlmMessage {
        message: Message::user("t"),
        turn_id: Some(TurnId { loop_id: "l".into(), turn_index: i }),
        node_id: None,
        parent_id: None,
        tags: vec![],
    });
    let messages = vec![msg(0), msg(1), msg(2)];
    let map = TurnMap::from_messages(&messages);
    let zero = BlockCompactionParams { keep_first_turns: 0, keep_recent_turns: 1, max_summary_tokens: 100, tool_output_max_lines: 5 };
    assert!(DefaultBlockCompaction.keep_first(&map, &zero).is_none());
    let two = BlockCompactionParams { keep_first_turns: 2, ..zero };
    let r = DefaultBlockCompaction.keep_first(&map, &two).unwrap();
    assert_eq!((r.start_turn, r.end_turn), (0, 1));
}

#[test]
fn default_compaction_fits_the_budget() {
    let mut messages = Vec::new();
    for i in 0..100 {
        messages.push(user(&format!("Message {} {}", i, "x".repeat(200))));
    }
    let limits = LegacyCompactionLimits {
        max_context_tokens: 500,
        system_prompt_tokens: 100,
        keep_recent: 5,
        keep_first: 2,
        tool_output_max_lines: 20,
    };
    let result = DefaultCompaction.compact(messages, &limits, &HeuristicTokenCounter);
    assert!(total_tokens(&result) <= 400);
    let small = vec![user("hi")];
    let same = DefaultCompaction.compact(small, &limits, &HeuristicTokenCounter);
    assert_eq!(same.len(), 1);
}

#[test]
fn numbered_turns_map_to_their_own_positions() {
    let msg = |i: Option<u32>| AgentMessage::Llm(LlmMessage {
        message: Message::user("t"),
        turn_id: i.map(|i| TurnId { loop_id: "l".into(), turn_index: i }),
        node_id: None,
        parent_id: None,
        tags: vec![],
    });
    let numbered = vec![msg(Some(0)), msg(Some(0)), msg(Some(1)), msg(Some(2)), msg(Some(2))];
    let map = TurnMap::from_messages(&numbered);
    assert_eq!(map.turn_count(), 3);
    assert_eq!(map.turn_msg_range(0), Some((0, 1)));
    assert_eq!(map.turn_msg_range(1), Some((2, 2)));
    assert_eq!(map.turn_msg_range(2), Some((3, 4)));
    assert_eq!(map.turn_msg_range(3), None);
    // a message without a turn id takes a position of its own
    let legacy_first = vec![msg(None), msg(Some(0)), msg(Some(0)), msg(Some(1))];
    let map = TurnMap::from_messages(&legacy_first);
    assert_eq!(map.turn_count(), 3);
    assert_eq!(map.turn_msg_range(0), Some((0, 0)));
    assert_eq!(map.turn_msg_range(1), Some((1, 2)));
    assert_eq!(map.turn_msg_range(2), Some((3, 3)));
}

#[test]
fn totals_add_over_concatenation() {
    let a = vec![user("hello there"), user("a somewhat longer message than the first")];
    let b = vec![user("x".repeat(41).as_str())];
    let mut both = a.clone();
    both.extend(b.iter().cloned());
    assert_eq!(total_tokens(&Vec::new()), 0);
    assert_eq!(total_tokens(&b), message_tokens(&b[0]));
    assert_eq!(total_tokens(&both), total_tokens(&a) + total_tokens(&b));
}
