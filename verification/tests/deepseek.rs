use deepseek_app_lib::deepseek::{
    client_base_url, delta_from_chunk, done_delta, endpoint, is_done_marker, model_ids,
    msg_assistant_with_tools, msg_tool_result, CompletedToolCall, Role, SseChoice, SseChunk,
    SseDelta, SseFunction, SseToolCall,
};
use deepseek_app_lib::error::{api_error, api_error_given, AppError};

fn choice(
    content: Option<&str>,
    reasoning: Option<&str>,
    calls: Vec<SseToolCall>,
    finish: Option<&str>,
) -> SseChoice {
    SseChoice {
        delta: SseDelta {
            content: content.map(|s| s.to_string()),
            reasoning_content: reasoning.map(|s| s.to_string()),
            tool_calls: calls,
        },
        finish_reason: finish.map(|s| s.to_string()),
    }
}

#[test]
fn parse_chunk_with_reasoning_and_tool_calls() {
    // {"choices":[{"delta":{"content":"hi","reasoning_content":"let me think",
    //   "tool_calls":[{"index":0,"id":"call_1","function":{"name":"read_file",
    //   "arguments":"{\"path\":\"a.txt\"}"}}]},"finish_reason":null}]}
    let chunk = SseChunk {
        choices: vec![choice(
            Some("hi"),
            Some("let me think"),
            vec![SseToolCall {
                index: 0,
                id: Some("call_1".to_string()),
                function: SseFunction {
                    name: Some("read_file".to_string()),
                    arguments: Some(r#"{"path":"a.txt"}"#.to_string()),
                },
            }],
            None,
        )],
    };
    let d = delta_from_chunk(&chunk);
    assert_eq!(d.content.as_deref(), Some("hi"));
    assert_eq!(d.reasoning.as_deref(), Some("let me think"));
    assert_eq!(d.tool_calls.len(), 1);
    assert_eq!(d.tool_calls[0].name.as_deref(), Some("read_file"));
    assert_eq!(d.tool_calls[0].id.as_deref(), Some("call_1"));
}

#[test]
fn parse_done_marker() {
    assert!(is_done_marker("[DONE]"));
    let d = done_delta();
    assert_eq!(d.finish.as_deref(), Some("stop"));
}

#[test]
fn done_marker_ignores_surrounding_whitespace_only() {
    assert!(is_done_marker("  [DONE]\n"));
    assert!(!is_done_marker("[DONE]x"));
    assert!(!is_done_marker("{\"choices\":[]}"));
}

#[test]
fn later_choices_win_and_tool_calls_come_from_the_last_choice() {
    let chunk = SseChunk {
        choices: vec![
            choice(Some("a"), None, vec![SseToolCall::default()], Some("length")),
            choice(None, Some("r"), Vec::new(), None),
            choice(Some("b"), None, Vec::new(), None),
        ],
    };
    let d = delta_from_chunk(&chunk);
    assert_eq!(d.content.as_deref(), Some("b"));
    assert_eq!(d.reasoning.as_deref(), Some("r"));
    assert_eq!(d.finish.as_deref(), Some("length"));
    assert!(d.tool_calls.is_empty());

    let empty = delta_from_chunk(&SseChunk { choices: Vec::new() });
    assert!(empty.content.is_none() && empty.reasoning.is_none() && empty.finish.is_none());
    assert!(empty.tool_calls.is_empty());
}

#[test]
fn error_message_extraction() {
    let err = api_error(401, r#"{"error":{"message":"Invalid API key"}}"#);
    match err {
        AppError::Api { status, message } => {
            assert_eq!(status, 401);
            assert!(message.contains("Invalid API key"));
        }
        other => panic!("unexpected: {other:?}"),
    }
}

#[test]
fn api_error_falls_back_to_status_or_body() {
    assert_eq!(
        api_error(500, "  "),
        AppError::Api { status: 500, message: "HTTP 500".to_string() }
    );
    assert_eq!(
        api_error(502, "Bad gateway"),
        AppError::Api { status: 502, message: "Bad gateway".to_string() }
    );
    let long: String = "x".repeat(450);
    match api_error(503, &long) {
        AppError::Api { message, .. } => assert_eq!(message.chars().count(), 400),
        other => panic!("unexpected: {other:?}"),
    }
    // A JSON body without `error.message` is kept as text.
    assert_eq!(
        api_error(400, r#"{"detail":"x"}"#),
        AppError::Api { status: 400, message: r#"{"detail":"x"}"#.to_string() }
    );
    assert_eq!(
        api_error_given(401, "ignored", Some("found".to_string())),
        AppError::Api { status: 401, message: "found".to_string() }
    );
}

#[test]
fn error_texts() {
    assert_eq!(
        AppError::Api { status: 401, message: "bad".to_string() }.message(),
        "API 错误 (401): bad"
    );
    assert_eq!(AppError::Network("down".to_string()).message(), "网络错误: down");
    assert_eq!(AppError::Parse("p".to_string()).message(), "解析错误: p");
    assert_eq!(AppError::Config("c".to_string()).message(), "配置错误: c");
    assert_eq!(AppError::Io("i".to_string()).message(), "IO 错误: i");
    assert_eq!(AppError::tool("t").message(), "工具执行失败: t");
    assert_eq!(AppError::Internal("n".to_string()).message(), "内部错误: n");
    let io = AppError::io(std::io::Error::new(std::io::ErrorKind::Other, "disk"));
    // The text is the error's display text.
    assert_eq!(io, AppError::Io("disk".into()));
    assert_eq!(io.message(), "IO 错误: disk");
}

#[test]
fn base_url_and_endpoints() {
    assert_eq!(client_base_url("https://api.deepseek.com//"), "https://api.deepseek.com");
    assert_eq!(client_base_url("http://x"), "http://x");
    assert_eq!(
        endpoint("https://api.deepseek.com", "/chat/completions"),
        "https://api.deepseek.com/chat/completions"
    );
}

#[test]
fn model_catalog_skips_entries_without_id() {
    let ids = model_ids(&vec![
        Some("deepseek-chat".to_string()),
        None,
        Some("deepseek-reasoner".to_string()),
    ]);
    assert_eq!(ids, vec!["deepseek-chat".to_string(), "deepseek-reasoner".to_string()]);
}

#[test]
fn assistant_tool_message_echoes_reasoning_unless_blank() {
    let calls = vec![CompletedToolCall {
        id: "c1".to_string(),
        name: "read_file".to_string(),
        arguments: "{}".to_string(),
    }];
    let m = msg_assistant_with_tools("", "thinking", &calls);
    assert_eq!(m.role, Role::Assistant);
    assert_eq!(m.reasoning_content.as_deref(), Some("thinking"));
    assert_eq!(m.tool_calls, calls);
    let m = msg_assistant_with_tools("x", "  ", &calls);
    assert_eq!(m.reasoning_content, None);
    let t = msg_tool_result("c1", "out");
    assert_eq!(t.role, Role::Tool);
    assert_eq!(t.tool_call_id.as_deref(), Some("c1"));
}
