use phi_core::provider::anthropic::{is_oauth_key, request_headers, OAuthIdentity, AnthropicBlockStart, AnthropicDecoder, AnthropicDelta, AnthropicEvent, StreamAction};
use phi_core::provider::error::{is_context_overflow_message, ProviderError};
use phi_core::provider::events::StreamEvent;
use phi_core::provider::mock::{respond, MockProvider, MockResponse, MockToolCall};
use phi_core::provider::model::{ApiProtocol, MaxTokensField, OpenAiCompat, ThinkingFormat};
use phi_core::provider::request::{build_request_body, CacheConfig, CacheStrategy, StreamRequest, ThinkingLevel, ToolDefinition};
use phi_core::types::{Content, Message, StopReason, Usage};
use phi_core::provider::registry::{ProviderKind, ProviderRegistry};
use phi_core::provider::anthropic::AnthropicProvider;
use phi_core::provider::openai_compat::OpenAiCompatProvider;
use phi_core::provider::azure_openai::AzureOpenAiProvider;
use phi_core::provider::bedrock::BedrockProvider;
use std::time::Duration;

#[test]
fn classify_anthropic_overflow() {
    let err = ProviderError::classify(400, "prompt is too long: 213462 tokens > 200000 maximum");
    assert!(err.is_context_overflow());
}

#[test]
fn classify_openai_overflow() {
    let err = ProviderError::classify(400, "Your input exceeds the context window of this model");
    assert!(err.is_context_overflow());
}

#[test]
fn classify_google_overflow() {
    let err =
        ProviderError::classify(400, "The input token count (1196265) exceeds the maximum number of tokens allowed");
    assert!(err.is_context_overflow());
}

#[test]
fn classify_bedrock_overflow() {
    let err = ProviderError::classify(400, "input is too long for requested model");
    assert!(err.is_context_overflow());
}

#[test]
fn classify_xai_overflow() {
    let err =
        ProviderError::classify(400, "This model's maximum prompt length is 131072 but request contains 537812 tokens");
    assert!(err.is_context_overflow());
}

#[test]
fn classify_groq_overflow() {
    let err = ProviderError::classify(400, "Please reduce the length of the messages or completion");
    assert!(err.is_context_overflow());
}

#[test]
fn classify_empty_body_overflow() {
    let err = ProviderError::classify(413, "");
    assert!(err.is_context_overflow());
    let err = ProviderError::classify(400, "  ");
    assert!(err.is_context_overflow());
}

#[test]
fn classify_rate_limit() {
    let err = ProviderError::classify(429, "rate limit exceeded");
    assert!(matches!(err, ProviderError::RateLimited { .. }));
}

#[test]
fn classify_auth_error() {
    let err = ProviderError::classify(401, "invalid api key");
    assert!(matches!(err, ProviderError::Auth(_)));
    let err = ProviderError::classify(403, "forbidden");
    assert!(matches!(err, ProviderError::Auth(_)));
}

#[test]
fn classify_regular_api_error() {
    let err = ProviderError::classify(400, "invalid request format");
    assert!(matches!(err, ProviderError::Api(_)));
    assert!(!err.is_context_overflow());
}

#[test]
fn overflow_message_case_insensitive() {
    assert!(is_context_overflow_message("PROMPT IS TOO LONG"));
    assert!(is_context_overflow_message("Too Many Tokens in request"));
}

#[test]
fn non_overflow_messages() {
    assert!(!is_context_overflow_message("invalid api key"));
    assert!(!is_context_overflow_message("internal server error"));
    assert!(!is_context_overflow_message(""));
}

#[test]
fn classify_keeps_the_message_and_rate_limit_has_no_delay() {
    match ProviderError::classify(500, "boom") {
        ProviderError::Api(m) => assert_eq!(m, "boom"),
        _ => panic!("expected an api error"),
    }
    match ProviderError::classify(429, "slow down") {
        ProviderError::RateLimited { retry_after_ms } => assert_eq!(retry_after_ms, None),
        _ => panic!("expected rate limited"),
    }
}

#[test]
fn retryable_errors_and_retry_after() {
    assert!(ProviderError::RateLimited { retry_after_ms: Some(1500) }.is_retryable());
    assert!(ProviderError::Network("reset".into()).is_retryable());
    assert!(!ProviderError::Auth("no".into()).is_retryable());
    assert!(!ProviderError::Cancelled.is_retryable());
    assert_eq!(
        ProviderError::RateLimited { retry_after_ms: Some(1500) }.retry_after(),
        Some(Duration::from_millis(1500))
    );
    assert_eq!(ProviderError::Api("x".into()).retry_after(), None);
}

#[test]
fn provider_error_display() {
    assert_eq!(ProviderError::Api("bad".into()).to_string(), "API error: bad");
    assert_eq!(ProviderError::Cancelled.to_string(), "Cancelled");
}

#[test]
fn test_openai_compat_variants() {
    let xai = OpenAiCompat::xai();
    assert_eq!(xai.thinking_format, ThinkingFormat::Xai);
    assert!(!xai.supports_store);

    let groq = OpenAiCompat::groq();
    assert!(groq.supports_usage_in_streaming);
    assert!(!groq.supports_store);

    let deepseek = OpenAiCompat::deepseek();
    assert_eq!(deepseek.max_tokens_field, MaxTokensField::MaxCompletionTokens);
}

#[test]
fn openai_compat_of_openai_itself() {
    let compat = OpenAiCompat::openai();
    assert!(compat.supports_store);
    assert!(compat.supports_developer_role);
    assert_eq!(compat.max_tokens_field, MaxTokensField::MaxCompletionTokens);
}

#[test]
fn test_api_protocol_display() {
    assert_eq!(ApiProtocol::AnthropicMessages.to_string(), "anthropic_messages");
    assert_eq!(ApiProtocol::OpenAiCompletions.to_string(), "openai_completions");
    assert_eq!(ApiProtocol::GoogleGenerativeAi.to_string(), "google_generative_ai");
}

fn make_request(cache: CacheConfig) -> StreamRequest {
    StreamRequest {
        model: "sonnet-4-20250514".into(),
        system_prompt: "You are helpful.".into(),
        messages: vec![
            Message::user("Hello"),
            Message::User { content: vec![Content::Text { text: "What is 2+2?".into() }], timestamp: 0 },
        ],
        tools: vec![ToolDefinition {
            name: "bash".into(),
            description: "Run commands".into(),
            parameters: "{\"type\":\"object\"}".into(),
        }],
        thinking_level: ThinkingLevel::Off,
        max_tokens: Some(1024),
        temperature: None,
        cache_config: cache,
    }
}

fn body_of(r: &StreamRequest) -> serde_json::Value {
    serde_json::from_str(&build_request_body(r, None)).expect("the body is valid JSON")
}

#[test]
fn test_cache_auto_places_all_breakpoints() {
    let body = body_of(&make_request(CacheConfig::default()));
    let system = &body["system"][0];
    assert_eq!(system["cache_control"]["type"], "ephemeral");
    let tools = body["tools"].as_array().unwrap();
    assert_eq!(tools.last().unwrap()["cache_control"]["type"], "ephemeral");
    let msgs = body["messages"].as_array().unwrap();
    let second_to_last = &msgs[msgs.len() - 2];
    let content = second_to_last["content"].as_array().unwrap();
    assert_eq!(content.last().unwrap()["cache_control"]["type"], "ephemeral");
}

#[test]
fn test_cache_disabled_no_breakpoints() {
    let body = body_of(&make_request(CacheConfig { enabled: false, strategy: CacheStrategy::Auto }));
    assert!(body["system"][0].get("cache_control").is_none());
    let tools = body["tools"].as_array().unwrap();
    assert!(tools.last().unwrap().get("cache_control").is_none());
    for msg in body["messages"].as_array().unwrap() {
        if let Some(content) = msg["content"].as_array() {
            for block in content {
                assert!(block.get("cache_control").is_none());
            }
        }
    }
}

#[test]
fn test_cache_manual_system_only() {
    let config = CacheConfig {
        enabled: true,
        strategy: CacheStrategy::Manual { cache_system: true, cache_tools: false, cache_messages: false },
    };
    let body = body_of(&make_request(config));
    assert_eq!(body["system"][0]["cache_control"]["type"], "ephemeral");
    assert!(body["tools"].as_array().unwrap().last().unwrap().get("cache_control").is_none());
    let msgs = body["messages"].as_array().unwrap();
    let content = msgs[msgs.len() - 2]["content"].as_array().unwrap();
    assert!(content.last().unwrap().get("cache_control").is_none());
}

fn tool_round(result: Vec<Content>, name: &str, args: &str) -> StreamRequest {
    StreamRequest {
        model: "sonnet-4-20250514".into(),
        system_prompt: "".into(),
        messages: vec![
            Message::Assistant {
                content: vec![Content::ToolCall { id: "tc-1".into(), name: name.into(), arguments: args.into() }],
                stop_reason: StopReason::ToolUse,
                model: "test".into(),
                provider: "test".into(),
                usage: Usage::default(),
                timestamp: 0,
                error_message: None,
            },
            Message::ToolResult {
                tool_call_id: "tc-1".into(),
                tool_name: name.into(),
                content: result,
                is_error: false,
                timestamp: 0,
            },
        ],
        tools: vec![],
        thinking_level: ThinkingLevel::Off,
        max_tokens: Some(1024),
        temperature: None,
        cache_config: CacheConfig { enabled: false, strategy: CacheStrategy::Disabled },
    }
}

#[test]
fn anthropic_test_tool_result_with_image() {
    let r = tool_round(
        vec![
            Content::Text { text: "screenshot".into() },
            Content::Image { data: "aW1hZ2VkYXRh".into(), mime_type: "image/png".into() },
        ],
        "read_file",
        "{\"path\":\"test.png\"}",
    );
    let body = body_of(&r);
    let msgs = body["messages"].as_array().unwrap();
    let tool_result = &msgs[1]["content"][0];
    assert_eq!(tool_result["type"], "tool_result");
    let content = tool_result["content"].as_array().unwrap();
    assert_eq!(content[0]["type"], "text");
    assert_eq!(content[1]["type"], "image");
    assert_eq!(content[1]["source"]["media_type"], "image/png");
}

#[test]
fn anthropic_test_tool_result_text_only_uses_string() {
    let r = tool_round(vec![Content::Text { text: "hello".into() }], "bash", "{\"command\":\"echo hi\"}");
    let body = body_of(&r);
    let msgs = body["messages"].as_array().unwrap();
    assert_eq!(msgs[1]["content"][0]["content"], "hello");
    assert_eq!(msgs[0]["content"][0]["input"]["command"], "echo hi");
}

#[test]
fn oauth_identity_opens_the_system_prompt() {
    let r = make_request(CacheConfig::default());
    let body: serde_json::Value = serde_json::from_str(&build_request_body(&r, Some("I am the CLI."))).unwrap();
    assert_eq!(body["system"][0]["text"], "I am the CLI.");
    assert!(body["system"][0].get("cache_control").is_none());
    assert_eq!(body["system"][1]["text"], "You are helpful.");
    assert_eq!(body["system"][1]["cache_control"]["type"], "ephemeral");
}

#[test]
fn body_carries_model_and_max_tokens() {
    let body = body_of(&make_request(CacheConfig::default()));
    assert_eq!(body["model"], "sonnet-4-20250514");
    assert_eq!(body["max_tokens"], 1024);
    assert_eq!(body["stream"], true);
}

#[test]
fn oauth_key_detection_and_headers() {
    assert!(is_oauth_key("sk-ant-oat01-abc"));
    assert!(!is_oauth_key("sk-ant-api03-abc"));
    let id = OAuthIdentity { system_text: "I am the CLI.".into(), beta: "b1,b2".into(), user_agent: "cli/1".into() };
    let h = request_headers("sk-ant-api03-abc", &id);
    assert_eq!(h.len(), 3);
    assert_eq!(h[2], ("x-api-key".to_string(), "sk-ant-api03-abc".to_string()));
    let h = request_headers("sk-ant-oat01-abc", &id);
    assert_eq!(h.len(), 7);
    assert_eq!(h[2], ("authorization".to_string(), "Bearer sk-ant-oat01-abc".to_string()));
    assert_eq!(h[3], ("anthropic-beta".to_string(), "b1,b2".to_string()));
    assert_eq!(h[5], ("user-agent".to_string(), "cli/1".to_string()));
}

#[test]
fn anthropic_decoder_streams_text_and_finishes() {
    let mut d = AnthropicDecoder::new();
    let a = d.apply(AnthropicEvent::MessageStart { input_tokens: 10, cache_read_input_tokens: 0, cache_creation_input_tokens: 0 });
    assert!(matches!(a, StreamAction::Continue(None)));
    d.apply(AnthropicEvent::ContentBlockStart { index: 0, block: AnthropicBlockStart::Text });
    let a = d.apply(AnthropicEvent::ContentBlockDelta { index: 0, delta: AnthropicDelta::Text("Hi".into()) });
    match a {
        StreamAction::Continue(Some(StreamEvent::TextDelta { content_index, delta })) => {
            assert_eq!(content_index, 0);
            assert_eq!(delta, "Hi");
        },
        _ => panic!("expected a text delta"),
    }
    d.apply(AnthropicEvent::ContentBlockStop { index: 0 });
    d.apply(AnthropicEvent::MessageDelta { stop_reason: Some("end_turn".into()), output_tokens: 5 });
    assert!(matches!(d.apply(AnthropicEvent::MessageStop), StreamAction::Complete));
    match d.finish("sonnet", 9) {
        Message::Assistant { content, usage, stop_reason, timestamp, .. } => {
            assert_eq!(usage.input, 10);
            assert_eq!(usage.output, 5);
            assert_eq!(stop_reason, StopReason::Stop);
            assert_eq!(timestamp, 9);
            match &content[0] {
                Content::Text { text } => assert_eq!(text, "Hi"),
                _ => panic!("expected text"),
            }
        },
        _ => panic!("expected an assistant message"),
    }
}

#[test]
fn anthropic_decoder_assembles_tool_arguments() {
    let mut d = AnthropicDecoder::new();
    d.apply(AnthropicEvent::ContentBlockStart {
        index: 0,
        block: AnthropicBlockStart::ToolUse { id: "t1".into(), name: "bash".into() },
    });
    d.apply(AnthropicEvent::ContentBlockDelta { index: 0, delta: AnthropicDelta::InputJson("{\"a\":".into()) });
    d.apply(AnthropicEvent::ContentBlockDelta { index: 0, delta: AnthropicDelta::InputJson("1}".into()) });
    d.apply(AnthropicEvent::ContentBlockStop { index: 0 });
    d.apply(AnthropicEvent::MessageDelta { stop_reason: Some("tool_use".into()), output_tokens: 1 });
    match d.finish("sonnet", 0) {
        Message::Assistant { content, stop_reason, .. } => {
            assert_eq!(stop_reason, StopReason::ToolUse);
            match &content[0] {
                Content::ToolCall { id, name, arguments } => {
                    assert_eq!(id, "t1");
                    assert_eq!(name, "bash");
                    let v: serde_json::Value = serde_json::from_str(arguments).unwrap();
                    assert_eq!(v["a"], 1);
                },
                _ => panic!("expected a tool call"),
            }
        },
        _ => panic!("expected an assistant message"),
    }
}

#[test]
fn anthropic_error_event_fails_the_stream() {
    let mut d = AnthropicDecoder::new();
    assert!(matches!(d.apply(AnthropicEvent::Error { data: "overloaded".into() }), StreamAction::Fail(_)));
}

fn texts_of(p: &mut MockProvider, n: usize) -> Vec<String> {
    let mut out = Vec::new();
    for _ in 0..n {
        match p.next_response() {
            MockResponse::Text(t) => out.push(t),
            MockResponse::ToolCalls(_) => out.push("<tool calls>".to_string()),
        }
    }
    out
}

#[test]
fn mock_new_is_one_shot_and_exhausts() {
    let mut p = MockProvider::new(vec![MockResponse::Text("a".into()), MockResponse::Text("b".into())]);
    assert_eq!(texts_of(&mut p, 3), vec!["a", "b", "(no more mock responses)"]);
}

#[test]
fn mock_with_repeat_false_matches_new_one_shot() {
    let mut p = MockProvider::with_repeat(vec![MockResponse::Text("a".into()), MockResponse::Text("b".into())], false);
    assert_eq!(texts_of(&mut p, 3), vec!["a", "b", "(no more mock responses)"]);
}

#[test]
fn mock_repeat_api_equivalence() {
    let mut repeating = MockProvider::repeating(vec![MockResponse::Text("x".into())]);
    let mut with_true = MockProvider::with_repeat(vec![MockResponse::Text("x".into())], true);
    let rep_seq = texts_of(&mut repeating, 3);
    assert_eq!(rep_seq, texts_of(&mut with_true, 3));
    assert_eq!(rep_seq, vec!["x", "x", "x"]);

    let mut with_false = MockProvider::with_repeat(vec![MockResponse::Text("x".into())], false);
    let mut plain_new = MockProvider::new(vec![MockResponse::Text("x".into())]);
    let false_seq = texts_of(&mut with_false, 3);
    assert_eq!(false_seq, texts_of(&mut plain_new, 3));
    assert_eq!(false_seq, vec!["x", "(no more mock responses)", "(no more mock responses)"]);
}

#[test]
fn mock_repeating_cycles_in_order() {
    let mut p = MockProvider::repeating(vec![MockResponse::Text("a".into()), MockResponse::Text("b".into())]);
    assert_eq!(texts_of(&mut p, 5), vec!["a", "b", "a", "b", "a"]);
}

#[test]
fn mock_respond_streams_tool_calls() {
    let (events, msg) = respond(
        MockResponse::ToolCalls(vec![MockToolCall { name: "bash".into(), arguments: "{\"command\":\"ls\"}".into() }]),
        3,
    );
    assert!(matches!(events[0], StreamEvent::Start));
    assert!(events.iter().any(|e| matches!(e, StreamEvent::ToolCallStart { name, .. } if name == "bash")));
    match msg {
        Message::Assistant { stop_reason, content, .. } => {
            assert_eq!(stop_reason, StopReason::ToolUse);
            assert!(matches!(&content[0], Content::ToolCall { name, .. } if name == "bash"));
        },
        _ => panic!("expected an assistant message"),
    }
}

fn openai_request(system: &str, messages: Vec<Message>, tools: Vec<ToolDefinition>) -> StreamRequest {
    StreamRequest {
        model: "gpt-4o".into(),
        system_prompt: system.into(),
        messages,
        tools,
        thinking_level: ThinkingLevel::Off,
        max_tokens: None,
        temperature: None,
        cache_config: CacheConfig::default(),
    }
}

fn openai_body(r: &StreamRequest, compat: &OpenAiCompat) -> serde_json::Value {
    let text = phi_core::provider::openai_request::build_request_body(r, compat, 16384);
    serde_json::from_str(&text).expect("the body is valid JSON")
}

#[test]
fn test_build_request_body_basic() {
    let r = openai_request("You are helpful.", vec![Message::user("Hello")], vec![]);
    let body = openai_body(&r, &OpenAiCompat::openai());
    assert_eq!(body["model"], "gpt-4o");
    assert!(body["stream"].as_bool().unwrap());
    assert_eq!(body["messages"][0]["role"], "developer");
    assert_eq!(body["messages"][1]["role"], "user");
    assert!(body["max_completion_tokens"].is_number());
    assert_eq!(body["max_completion_tokens"], 16384);
    assert_eq!(body["stream_options"]["include_usage"], true);
}

#[test]
fn test_build_request_body_with_tools() {
    let mut r = openai_request(
        "",
        vec![Message::user("List files")],
        vec![ToolDefinition { name: "bash".into(), description: "Run a command".into(), parameters: "{\"type\":\"object\"}".into() }],
    );
    r.max_tokens = Some(1024);
    r.temperature = Some("0.5".into());
    let body = openai_body(&r, &OpenAiCompat::openai());
    assert!(body["tools"].is_array());
    assert_eq!(body["tools"][0]["function"]["name"], "bash");
    assert_eq!(body["tools"][0]["function"]["parameters"]["type"], "object");
    assert_eq!(body["temperature"], 0.5);
    assert_eq!(body["max_completion_tokens"], 1024);
}

#[test]
fn test_content_to_openai_simple_text() {
    let body = openai_body(&openai_request("", vec![Message::user("hello")], vec![]), &OpenAiCompat::default());
    assert_eq!(body["messages"][0]["content"], "hello");
    assert_eq!(body["messages"][0]["role"], "user");
    assert_eq!(body["max_tokens"], 16384);
}

#[test]
fn test_content_to_openai_multipart() {
    let m = Message::User {
        content: vec![
            Content::Text { text: "look at this".into() },
            Content::Image { data: "abc".into(), mime_type: "image/png".into() },
        ],
        timestamp: 0,
    };
    let body = openai_body(&openai_request("", vec![m], vec![]), &OpenAiCompat::default());
    let result = &body["messages"][0]["content"];
    assert!(result.is_array());
    assert_eq!(result[0]["type"], "text");
    assert_eq!(result[1]["type"], "image_url");
    assert_eq!(result[1]["image_url"]["url"], "data:image/png;base64,abc");
}

#[test]
fn openai_compat_test_tool_result_with_image() {
    let msgs = vec![
        Message::Assistant {
            content: vec![Content::ToolCall { id: "call-1".into(), name: "read_file".into(), arguments: "{\"path\":\"img.png\"}".into() }],
            stop_reason: StopReason::ToolUse,
            model: "test".into(),
            provider: "test".into(),
            usage: Usage::default(),
            timestamp: 0,
            error_message: None,
        },
        Message::ToolResult {
            tool_call_id: "call-1".into(),
            tool_name: "read_file".into(),
            content: vec![Content::Image { data: "aW1hZ2VkYXRh".into(), mime_type: "image/png".into() }],
            is_error: false,
            timestamp: 0,
        },
    ];
    let body = openai_body(&openai_request("", msgs, vec![]), &OpenAiCompat::openai());
    let msgs = body["messages"].as_array().unwrap();
    let call = &msgs[0]["tool_calls"][0];
    assert_eq!(call["function"]["arguments"], "{\"path\":\"img.png\"}");
    assert!(msgs[0].get("content").is_none());
    let tool_msg = msgs.last().unwrap();
    assert_eq!(tool_msg["role"], "tool");
    let content = tool_msg["content"].as_array().unwrap();
    assert_eq!(content[0]["type"], "image_url");
    assert!(content[0]["image_url"]["url"].as_str().unwrap().starts_with("data:image/png;base64,"));
}

#[test]
fn openai_compat_test_tool_result_text_only_uses_string() {
    let msgs = vec![Message::ToolResult {
        tool_call_id: "call-1".into(),
        tool_name: "bash".into(),
        content: vec![Content::Text { text: "hello".into() }],
        is_error: false,
        timestamp: 0,
    }];
    let body = openai_body(&openai_request("", msgs, vec![]), &OpenAiCompat::openai());
    let tool_msg = body["messages"].as_array().unwrap().last().unwrap().clone();
    assert_eq!(tool_msg["content"], "hello");
    assert!(tool_msg.get("name").is_none());
    let mut compat = OpenAiCompat::default();
    compat.requires_tool_result_name = true;
    let msgs = vec![Message::ToolResult {
        tool_call_id: "call-1".into(),
        tool_name: "bash".into(),
        content: vec![Content::Text { text: "hello".into() }],
        is_error: false,
        timestamp: 0,
    }];
    let body = openai_body(&openai_request("", msgs, vec![]), &compat);
    assert_eq!(body["messages"][0]["name"], "bash");
}

#[test]
fn openai_reasoning_effort_follows_thinking_level() {
    let mut r = openai_request("sys", vec![Message::user("x")], vec![]);
    r.thinking_level = ThinkingLevel::Medium;
    let body = openai_body(&r, &OpenAiCompat::openai());
    assert_eq!(body["reasoning_effort"], "medium");
    assert_eq!(body["messages"][0]["role"], "developer");
    let body = openai_body(&r, &OpenAiCompat::groq());
    assert!(body.get("reasoning_effort").is_none());
    assert_eq!(body["messages"][0]["role"], "system");
}

fn bedrock_of(r: &StreamRequest) -> serde_json::Value {
    serde_json::from_str(&phi_core::provider::bedrock_request::build_bedrock_body(r)).expect("valid JSON")
}

fn azure_of(r: &StreamRequest) -> serde_json::Value {
    serde_json::from_str(&phi_core::provider::azure_request::build_azure_request_body(r)).expect("valid JSON")
}

#[test]
fn test_build_bedrock_body() {
    let mut r = openai_request("Be helpful", vec![Message::user("Hello")], vec![]);
    r.model = "sonnet-v1".into();
    r.max_tokens = Some(1024);
    let body = bedrock_of(&r);
    assert!(body["messages"].is_array());
    assert_eq!(body["messages"][0]["role"], "user");
    assert!(body["system"].is_array());
    assert_eq!(body["system"][0]["text"], "Be helpful");
    assert_eq!(body["inferenceConfig"]["maxTokens"], 1024);
    assert!(body["inferenceConfig"].get("temperature").is_none());
    assert!(body.get("toolConfig").is_none());
}

#[test]
fn test_content_to_bedrock() {
    let m = Message::Assistant {
        content: vec![
            Content::Text { text: "hello".into() },
            Content::Thinking { thinking: "hmm".into(), signature: None },
            Content::ToolCall { id: "tc-1".into(), name: "bash".into(), arguments: "{\"command\":\"ls\"}".into() },
        ],
        stop_reason: StopReason::ToolUse,
        model: "m".into(),
        provider: "p".into(),
        usage: Usage::default(),
        timestamp: 0,
        error_message: None,
    };
    let body = bedrock_of(&openai_request("", vec![m], vec![]));
    let blocks = body["messages"][0]["content"].as_array().unwrap();
    assert_eq!(blocks.len(), 2);
    assert_eq!(blocks[0]["text"], "hello");
    assert_eq!(blocks[1]["toolUse"]["name"], "bash");
    assert_eq!(blocks[1]["toolUse"]["input"]["command"], "ls");
    assert!(body.get("inferenceConfig").is_none());
    assert!(body.get("system").is_none());
}

#[test]
fn bedrock_tool_results_images_and_tools() {
    let msgs = vec![
        Message::ToolResult {
            tool_call_id: "t1".into(),
            tool_name: "read".into(),
            content: vec![Content::Image { data: "AAA".into(), mime_type: "image/jpeg".into() }],
            is_error: true,
            timestamp: 0,
        },
        Message::ToolResult { tool_call_id: "t2".into(), tool_name: "read".into(), content: vec![], is_error: false, timestamp: 0 },
    ];
    let mut r = openai_request(
        "",
        msgs,
        vec![ToolDefinition { name: "bash".into(), description: "d".into(), parameters: "{\"type\":\"object\"}".into() }],
    );
    r.temperature = Some("0.25".into());
    let body = bedrock_of(&r);
    let tr = &body["messages"][0]["content"][0]["toolResult"];
    assert_eq!(tr["status"], "error");
    assert_eq!(tr["toolUseId"], "t1");
    assert_eq!(tr["content"][0]["image"]["format"], "jpeg");
    assert_eq!(tr["content"][0]["image"]["source"]["bytes"], "AAA");
    let empty = &body["messages"][1]["content"][0]["toolResult"];
    assert_eq!(empty["status"], "success");
    assert_eq!(empty["content"][0]["text"], "");
    assert_eq!(body["inferenceConfig"]["temperature"], 0.25);
    assert_eq!(body["toolConfig"]["tools"][0]["toolSpec"]["name"], "bash");
    assert_eq!(body["toolConfig"]["tools"][0]["toolSpec"]["inputSchema"]["json"]["type"], "object");
}

#[test]
fn azure_body_items() {
    let msgs = vec![
        Message::user("hi"),
        Message::Assistant {
            content: vec![
                Content::Text { text: "let me look".into() },
                Content::ToolCall { id: "c1".into(), name: "bash".into(), arguments: "{\"command\":\"ls\"}".into() },
            ],
            stop_reason: StopReason::ToolUse,
            model: "m".into(),
            provider: "p".into(),
            usage: Usage::default(),
            timestamp: 0,
            error_message: None,
        },
        Message::ToolResult {
            tool_call_id: "c1".into(),
            tool_name: "bash".into(),
            content: vec![Content::Text { text: "a.txt".into() }],
            is_error: false,
            timestamp: 0,
        },
        Message::User {
            content: vec![Content::Text { text: "see".into() }, Content::Image { data: "Zm9v".into(), mime_type: "image/png".into() }],
            timestamp: 0,
        },
    ];
    let mut r = openai_request("Be brief", msgs, vec![ToolDefinition { name: "bash".into(), description: "d".into(), parameters: "{}".into() }]);
    r.max_tokens = Some(300);
    let body = azure_of(&r);
    let input = body["input"].as_array().unwrap();
    assert_eq!(input.len(), 5);
    assert_eq!(input[0]["content"], "hi");
    assert_eq!(input[1]["type"], "message");
    assert_eq!(input[1]["content"][0]["type"], "output_text");
    assert_eq!(input[2]["type"], "function_call");
    assert_eq!(input[2]["call_id"], "c1");
    assert_eq!(input[2]["arguments"], "{\"command\":\"ls\"}");
    assert_eq!(input[3]["type"], "function_call_output");
    assert_eq!(input[3]["output"], "a.txt");
    assert_eq!(input[4]["content"][1]["type"], "input_image");
    assert_eq!(input[4]["content"][1]["image_url"], "data:image/png;base64,Zm9v");
    assert_eq!(body["instructions"], "Be brief");
    assert_eq!(body["max_output_tokens"], 300);
    assert_eq!(body["tools"][0]["type"], "function");
    assert_eq!(body["tools"][0]["name"], "bash");
    assert_eq!(body["stream"], true);
}

#[test]
fn test_default_registry_has_all_providers() {
    let registry = ProviderRegistry::default();

    assert!(registry.has(&ApiProtocol::AnthropicMessages));
    assert!(registry.has(&ApiProtocol::OpenAiCompletions));
    assert!(registry.has(&ApiProtocol::OpenAiResponses));
    assert!(registry.has(&ApiProtocol::GoogleGenerativeAi));
    assert!(registry.has(&ApiProtocol::GoogleVertex));
    assert!(registry.has(&ApiProtocol::BedrockConverseStream));
    assert!(registry.has(&ApiProtocol::AzureOpenAiResponses));
}

#[test]
fn test_registry_protocols() {
    let registry = ProviderRegistry::default();
    let protocols = registry.protocols();
    assert_eq!(protocols.len(), 7);
}

#[test]
fn test_custom_registry() {
    let mut registry = ProviderRegistry::new();
    assert!(!registry.has(&ApiProtocol::AnthropicMessages));

    registry.register(ApiProtocol::AnthropicMessages, ProviderKind::Anthropic);
    assert!(registry.has(&ApiProtocol::AnthropicMessages));
}

#[test]
fn registering_again_replaces_the_provider() {
    let mut registry = ProviderRegistry::new();
    registry.register(ApiProtocol::AnthropicMessages, ProviderKind::Mock(MockProvider::text("hi".to_string())));
    registry.register(ApiProtocol::BedrockConverseStream, ProviderKind::Bedrock);
    registry.register(ApiProtocol::AnthropicMessages, ProviderKind::Anthropic);
    assert_eq!(registry.protocols().len(), 2);
    assert!(matches!(registry.get(&ApiProtocol::AnthropicMessages), Some(ProviderKind::Anthropic)));
    assert!(matches!(registry.get(&ApiProtocol::BedrockConverseStream), Some(ProviderKind::Bedrock)));
    assert!(registry.get(&ApiProtocol::GoogleVertex).is_none());
    let default = ProviderRegistry::with_builtin();
    assert!(matches!(default.get(&ApiProtocol::AzureOpenAiResponses), Some(ProviderKind::AzureOpenAi)));
}

#[test]
fn take_removes_only_that_protocol() {
    let mut registry = ProviderRegistry::default();
    assert!(matches!(registry.take(&ApiProtocol::GoogleVertex), Some(ProviderKind::GoogleVertex)));
    assert!(!registry.has(&ApiProtocol::GoogleVertex));
    assert!(registry.take(&ApiProtocol::GoogleVertex).is_none());
    assert_eq!(registry.protocols().len(), 6);
    assert!(registry.has(&ApiProtocol::AnthropicMessages));
    registry.register(ApiProtocol::GoogleVertex, ProviderKind::Mock(MockProvider::text("m".to_string())));
    assert_eq!(registry.protocols().len(), 7);
}

#[test]
fn provider_ids() {
    assert_eq!(AnthropicProvider.provider_id(), "anthropic");
    assert_eq!(OpenAiCompatProvider.provider_id(), "openai");
    assert_eq!(AzureOpenAiProvider.provider_id(), "azure");
    assert_eq!(BedrockProvider.provider_id(), "bedrock");
    assert_eq!(MockProvider::text("x".to_string()).provider_id(), "mock");
}

#[test]
fn anthropic_decoder_reprints_tool_arguments_compactly() {
    let mut d = AnthropicDecoder::new();
    d.apply(AnthropicEvent::ContentBlockStart {
        index: 0,
        block: AnthropicBlockStart::ToolUse { id: "t1".into(), name: "bash".into() },
    });
    d.apply(AnthropicEvent::ContentBlockDelta { index: 0, delta: AnthropicDelta::InputJson("{ \"a\" : ".into()) });
    d.apply(AnthropicEvent::ContentBlockDelta { index: 0, delta: AnthropicDelta::InputJson("[1, 2] }".into()) });
    d.apply(AnthropicEvent::ContentBlockStop { index: 0 });
    match d.finish("sonnet", 0) {
        Message::Assistant { content, .. } => match &content[0] {
            Content::ToolCall { arguments, .. } => assert_eq!(arguments, "{\"a\":[1,2]}"),
            _ => panic!("expected a tool call"),
        },
        _ => panic!("expected an assistant message"),
    }
}

#[test]
fn mock_text_always_answers_the_same() {
    let mut p = MockProvider::text("hi".to_string());
    assert_eq!(texts_of(&mut p, 3), vec!["hi", "hi", "hi"]);
}
