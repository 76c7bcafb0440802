use phi_core::json::json_string_of;
use phi_core::mcp::{
    default_request_timeout, mcp_tool_result, prefixed_tool_name, rpc_result, ClientInfo, McpClientConfig, McpContent,
    McpToolCallResult, RpcFailure,
};
use phi_core::session::{config_segment_from_loop_id, extract_config_snapshot, session_id_from_loop_id, FileSystemSessionStore};
use phi_core::tools::ToolError;
use phi_core::types::{AgentMessage, Content, LlmMessage, Message, NodeId, RevertCategory, StopReason, Usage};
use std::time::Duration;

#[test]
fn test_client_info_default() {
    let info = ClientInfo::default();
    assert_eq!(info.name, "phi-core");
    assert!(!info.version.is_empty());
}

#[test]
fn stdio_default_timeout_is_30s() {
    assert_eq!(default_request_timeout(), Duration::from_secs(30));
    assert_eq!(McpClientConfig::default().request_timeout, Duration::from_secs(30));
}

#[test]
fn mcp_results_become_tool_results() {
    let ok = mcp_tool_result(McpToolCallResult {
        content: vec![
            McpContent::Text { text: "a".into() },
            McpContent::Image { data: "d".into(), mime_type: "image/png".into() },
        ],
        is_error: false,
    })
    .ok()
    .unwrap();
    assert_eq!(ok.content.len(), 2);
    assert!(matches!(&ok.content[0], Content::Text { text } if text == "a"));
    assert!(matches!(&ok.content[1], Content::Image { mime_type, .. } if mime_type == "image/png"));
    let err = mcp_tool_result(McpToolCallResult {
        content: vec![McpContent::Text { text: "x".into() }, McpContent::Text { text: "y".into() }],
        is_error: true,
    });
    match err {
        Err(ToolError::Failed(m)) => assert_eq!(m, "x\ny"),
        _ => panic!("expected a failure"),
    }
}

#[test]
fn loop_id_parts() {
    assert_eq!(session_id_from_loop_id("s1.cfg.7"), "s1");
    assert_eq!(session_id_from_loop_id("plain"), "plain");
    assert_eq!(config_segment_from_loop_id("s1.cfg.7"), Some("cfg".to_string()));
    assert_eq!(config_segment_from_loop_id("s1.a.b.7"), Some("a.b".to_string()));
    assert_eq!(config_segment_from_loop_id("s1.7"), None);
    assert_eq!(config_segment_from_loop_id("plain"), None);
}

#[test]
fn config_snapshot_from_first_assistant() {
    let msgs = vec![
        AgentMessage::Llm(LlmMessage::new(Message::user("hi"))),
        AgentMessage::Llm(LlmMessage::new(Message::Assistant {
            content: vec![],
            stop_reason: StopReason::Stop,
            model: "m1".into(),
            provider: "p1".into(),
            usage: Usage::default(),
            timestamp: 0,
            error_message: None,
        })),
    ];
    let s = extract_config_snapshot(&msgs, "s.c.1").unwrap();
    assert_eq!(s.model, "m1");
    assert_eq!(s.provider, "p1");
    assert_eq!(s.config_id, Some("c".to_string()));
    assert!(extract_config_snapshot(&msgs[..1], "s.c.1").is_none());
}

#[test]
fn session_store_keeps_its_dir() {
    assert_eq!(FileSystemSessionStore::new("/tmp/x".into()).dir(), "/tmp/x");
}

#[test]
fn node_ids_round_trip() {
    assert_eq!(NodeId::parse("n12"), Some(NodeId(12)));
    assert_eq!(NodeId::parse("12"), Some(NodeId(12)));
    assert_eq!(NodeId::parse("n"), None);
    assert_eq!(NodeId::parse("x1"), None);
    assert_eq!(NodeId::parse("99999999999999999999999"), None);
    assert_eq!(NodeId(7).to_string(), "n7");
    assert_eq!(NodeId::parse(&NodeId(42).to_string()), Some(NodeId(42)));
}

#[test]
fn revert_categories_round_trip() {
    for c in [RevertCategory::Failure, RevertCategory::Tangent, RevertCategory::Completion, RevertCategory::StepSummary] {
        assert_eq!(RevertCategory::parse(c.as_str()), Some(c));
    }
    assert_eq!(RevertCategory::StepSummary.as_str(), "step-summary");
    assert_eq!(RevertCategory::parse("nope"), None);
}

#[test]
fn json_strings_escape_like_serde_json() {
    for s in ["plain", "a\"b", "back\\slash", "line\nbreak\ttab", "\u{1}ctl", "héllo"] {
        assert_eq!(json_string_of(s), serde_json::to_string(s).unwrap());
    }
}

#[test]
fn message_roles() {
    assert_eq!(Message::user("x").role(), "user");
    let tr = Message::ToolResult {
        tool_call_id: "i".into(),
        tool_name: "t".into(),
        content: vec![],
        is_error: false,
        timestamp: 0,
    };
    assert_eq!(tr.role(), "toolResult");
}

#[test]
fn mcp_names_and_rpc_results() {
    assert_eq!(prefixed_tool_name(Some("srv__"), "read"), "srv__read");
    assert_eq!(prefixed_tool_name(None, "read"), "read");
    assert!(matches!(rpc_result::<u8>(Some((-32601, "nope".into())), Some(1)), Err(RpcFailure::JsonRpc { code: -32601, message }) if message == "nope"));
    assert_eq!(rpc_result::<u8>(None, Some(1)).ok(), Some(1));
    assert!(matches!(rpc_result::<u8>(None, None), Err(RpcFailure::NoResult)));
}
