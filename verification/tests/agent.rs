use deepseek_app_lib::agent::{
    build_system_prompt, conversation_only, runtime_context_at, AgentAction, AgentConfig,
    AgentEvent, AgentRun, PreparedPrompt, RunPhase,
};
use deepseek_app_lib::deepseek::{
    msg_assistant, msg_system, msg_user, ApiMessage, ChatDelta, Role, ToolCallDelta,
};
use deepseek_app_lib::error::{api_error, AppError};
use deepseek_app_lib::skills::SkillInfo;
use deepseek_app_lib::tools::ToolResult;

fn cfg(model: &str, max_rounds: usize) -> AgentConfig {
    AgentConfig {
        model: model.to_string(),
        system_prompt: String::new(),
        allow_bash: false,
        workspace_dir: "/tmp/ws".to_string(),
        max_tool_rounds: max_rounds,
        enabled_skills: Vec::new(),
        skill_roots: vec!["/tmp/data/skills".to_string()],
    }
}

fn prompt() -> PreparedPrompt {
    PreparedPrompt { system_prompt: "base".to_string(), runtime_context: "rt".to_string() }
}

fn delta_text(content: Option<&str>, reasoning: Option<&str>) -> ChatDelta {
    ChatDelta {
        content: content.map(|s| s.to_string()),
        reasoning: reasoning.map(|s| s.to_string()),
        tool_calls: Vec::new(),
        finish: None,
    }
}

fn is_system(m: &ApiMessage) -> bool {
    m.role == Role::System
}

#[test]
fn conversation_only_strips_system_prompts() {
    let msgs = vec![
        msg_system("base prompt"),
        msg_system("runtime context"),
        msg_user("hello"),
        msg_assistant("hi"),
    ];
    let kept = conversation_only(&msgs);
    assert_eq!(kept.len(), 2);
    assert_eq!(kept[0].role, Role::User);
    assert_eq!(kept[1].role, Role::Assistant);
    assert!(kept.iter().all(|m| !is_system(m)));
}

#[test]
fn history_system_messages_are_filtered_when_assembling() {
    // A legacy session whose conversation accidentally contains system prompts.
    let history = vec![msg_system("legacy system"), msg_user("q1"), msg_assistant("a1")];
    let mut messages: Vec<ApiMessage> = Vec::new();
    messages.push(msg_system("fresh system"));
    messages.extend(conversation_only(&history));
    messages.push(msg_user("q2"));

    assert_eq!(messages.len(), 4);
    assert_eq!(messages[0].role, Role::System);
    assert_eq!(messages[1].role, Role::User);
    assert_eq!(messages[2].role, Role::Assistant);
    assert_eq!(messages[3].role, Role::User);
    assert_eq!(messages.iter().filter(|m| is_system(m)).count(), 1);
}

#[test]
fn run_stack_drops_history_system_prompts() {
    let history = vec![msg_system("legacy system"), msg_user("q1"), msg_assistant("a1")];
    let mut run = AgentRun::new(&cfg("deepseek-chat", 5), history, "q2");
    let st = run.prepare(Ok(prompt()));
    assert!(st.events.is_empty());
    assert!(matches!(st.action, AgentAction::CheckStop));
    let m = run.messages();
    assert_eq!(m.len(), 5);
    assert_eq!(m[0].content, "base");
    assert_eq!(m[1].content, "rt");
    assert_eq!(m[2].content, "q1");
    assert_eq!(m[3].content, "a1");
    assert_eq!(m[4].content, "q2");
    assert_eq!(m.iter().filter(|x| is_system(x)).count(), 2);
}

#[test]
fn system_prompt_parts_are_joined() {
    let base = build_system_prompt(None, "", "");
    assert!(base.starts_with("You are DeepSeek App"));
    assert!(base.ends_with("Always verify with tools when you can."));
    let full = build_system_prompt(Some("  use tabs  \n"), "  be brief ", "SKILLS");
    let expected = format!(
        "{base}\n\nProject agent instructions (AGENTS.md):\nuse tabs\n\nAdditional user instructions:\nbe brief\n\nSKILLS"
    );
    assert_eq!(full, expected);
    // Blank parts are left out.
    assert_eq!(build_system_prompt(Some("   "), "\n", " "), base);
}

#[test]
fn runtime_context_is_pretty_json() {
    let text = runtime_context_at("2024-01-02 03:04:05 +0000", "deepseek-chat", "linux", "/w\"s");
    assert_eq!(
        text,
        "Runtime context:\n{\n  \"current_time\": \"2024-01-02 03:04:05 +0000\",\n  \"model\": \"deepseek-chat\",\n  \"platform\": \"linux\",\n  \"workspace\": \"/w\\\"s\"\n}"
    );
}

/// One turn that calls `read_file`, then answers; then a continuation.
#[test]
fn agent_turn_with_tool_then_continuation() {
    let mut run = AgentRun::new(&cfg("deepseek-chat", 10), Vec::new(), "check");
    let mut log: Vec<AgentEvent> = Vec::new();
    run.prepare(Ok(prompt()));
    let st = run.begin_round(false);
    assert!(matches!(st.action, AgentAction::OpenStream { with_tools: true }));
    run.stream_opened(Ok(()));
    log.extend(run.on_chunk(Ok(delta_text(Some(""), Some("think")))).events);
    log.extend(run.on_chunk(Ok(delta_text(Some("Let me check."), None))).events);
    let mut d = delta_text(None, None);
    d.tool_calls.push(ToolCallDelta {
        index: 0,
        id: Some("call_1".into()),
        name: Some("read_file".into()),
        arguments: Some(String::new()),
    });
    log.extend(run.on_chunk(Ok(d)).events);
    let mut d = delta_text(None, None);
    d.tool_calls.push(ToolCallDelta {
        index: 0,
        id: None,
        name: None,
        arguments: Some("{\"path\":\"data.txt\"}".into()),
    });
    log.extend(run.on_chunk(Ok(d)).events);
    let st = run.on_stream_end();
    log.extend(st.events);
    let call = match st.action {
        AgentAction::RunTool(c) => c,
        _ => panic!("expected a tool call"),
    };
    assert_eq!(call.id, "call_1");
    assert_eq!(call.name, "read_file");
    assert_eq!(call.arguments, "{\"path\":\"data.txt\"}");
    let st = run.on_tool_finished(ToolResult { ok: true, output: "hello from file".into() });
    log.extend(st.events);
    assert!(matches!(st.action, AgentAction::CheckStop));
    run.begin_round(false);
    run.stream_opened(Ok(()));
    log.extend(run.on_chunk(Ok(delta_text(Some(" Content: hello from file"), None))).events);
    let st = run.on_stream_end();
    log.extend(st.events);
    let out = match st.action {
        AgentAction::Finish(o) => o,
        _ => panic!("expected the turn to finish"),
    };
    assert_eq!(run.current_phase(), RunPhase::Finished);
    assert_eq!(out.content, "Let me check. Content: hello from file");
    assert_eq!(out.reasoning, "think");
    assert_eq!(out.tools.len(), 1);
    assert_eq!(out.tools[0].status, "done");
    assert_eq!(out.tools[0].output.as_deref(), Some("hello from file"));
    // user + assistant(tools) + tool + assistant, no system prompt.
    assert_eq!(out.api_messages.len(), 4);
    assert!(out.api_messages.iter().all(|m| !is_system(m)));
    assert_eq!(out.api_messages[1].tool_calls.len(), 1);
    assert_eq!(out.api_messages[1].reasoning_content.as_deref(), Some("think"));
    assert_eq!(out.api_messages[2].role, Role::Tool);
    assert_eq!(out.api_messages[2].content, "{\"ok\":true,\"output\":\"hello from file\"}");
    assert_eq!(out.api_messages[2].tool_call_id.as_deref(), Some("call_1"));
    // The final answer message holds the last round's text only.
    assert_eq!(out.api_messages[3].content, " Content: hello from file");
    // Every request starts with the two system prompts.
    let sent = run.messages();
    assert_eq!(sent[0].content, "base");
    assert_eq!(sent[1].content, "rt");
    assert_eq!(sent.len(), 6);
    assert!(log.iter().any(|e| matches!(e, AgentEvent::Stream { reasoning: true, .. })));
    assert_eq!(log.iter().filter(|e| matches!(e, AgentEvent::Done { .. })).count(), 1);
    match log.last() {
        Some(AgentEvent::Done { content }) => assert_eq!(content, &out.content),
        _ => panic!("the last event must be Done"),
    }

    // Continuation: the kept conversation is the next history.
    let mut run2 = AgentRun::new(&cfg("deepseek-chat", 10), out.api_messages.clone(), "continue");
    run2.prepare(Ok(prompt()));
    run2.begin_round(false);
    run2.stream_opened(Ok(()));
    run2.on_chunk(Ok(delta_text(Some("still hello"), None)));
    let out2 = match run2.on_stream_end().action {
        AgentAction::Finish(o) => o,
        _ => panic!("expected the turn to finish"),
    };
    assert_eq!(out2.tools.len(), 0);
    assert_eq!(out2.api_messages.len(), out.api_messages.len() + 2);
    assert!(out2.api_messages.iter().all(|m| !is_system(m)));
}

#[test]
fn stop_flag_interrupts_agent() {
    let mut run = AgentRun::new(&cfg("deepseek-chat", 10), Vec::new(), "hi");
    run.prepare(Ok(prompt()));
    let st = run.begin_round(true);
    assert_eq!(st.events.len(), 1);
    assert!(matches!(&st.events[0], AgentEvent::Done { content } if content.is_empty()));
    match st.action {
        AgentAction::Finish(o) => {
            assert!(o.content.is_empty());
            assert_eq!(o.api_messages.len(), 1);
        },
        _ => panic!("expected the turn to finish"),
    }
}

#[test]
fn stop_seen_while_streaming_keeps_partial_answer() {
    let mut run = AgentRun::new(&cfg("deepseek-chat", 10), Vec::new(), "hi");
    run.prepare(Ok(prompt()));
    run.begin_round(false);
    run.stream_opened(Ok(()));
    run.on_chunk(Ok(delta_text(Some("part"), None)));
    let st = run.on_stop_seen();
    match st.action {
        AgentAction::Finish(o) => {
            assert_eq!(o.content, "part");
            assert_eq!(o.api_messages.len(), 1);
        },
        _ => panic!("expected the turn to finish"),
    }
}

#[test]
fn agent_error_emits_single_error_event() {
    let mut run = AgentRun::new(&cfg("deepseek-chat", 10), Vec::new(), "hi");
    run.prepare(Ok(prompt()));
    run.begin_round(false);
    // The API answers 401 with {"error":{"message":"Invalid API key"}}.
    let st = run.stream_opened(Err(api_error(401, r#"{"error":{"message":"Invalid API key"}}"#)));
    assert_eq!(st.events.len(), 1);
    match &st.events[0] {
        AgentEvent::Error { message } => assert_eq!(message, "API 错误 (401): Invalid API key"),
        _ => panic!("expected an error event"),
    }
    assert!(matches!(st.action, AgentAction::Fail(_)));
    assert_eq!(run.current_phase(), RunPhase::Failed);
}

#[test]
fn skill_selection_failure_fails_the_turn() {
    let mut run = AgentRun::new(&cfg("deepseek-chat", 10), Vec::new(), "hi");
    let st = run.prepare(Err(AppError::Parse("bad".into())));
    assert_eq!(st.events.len(), 1);
    assert!(matches!(&st.events[0], AgentEvent::Error { message } if message == "解析错误: bad"));
}

#[test]
fn reasoner_models_get_no_tools_and_round_limit_ends_turn() {
    let mut run = AgentRun::new(&cfg("deepseek-reasoner", 0), Vec::new(), "hi");
    run.prepare(Ok(prompt()));
    let st = run.begin_round(false);
    assert!(matches!(st.action, AgentAction::Finish(_)));
    let mut run = AgentRun::new(&cfg("deepseek-reasoner", 3), Vec::new(), "hi");
    run.prepare(Ok(prompt()));
    let st = run.begin_round(false);
    assert!(matches!(st.action, AgentAction::OpenStream { with_tools: false }));
}

#[test]
fn incomplete_tool_calls_are_skipped_and_ordered() {
    let mut run = AgentRun::new(&cfg("deepseek-chat", 10), Vec::new(), "hi");
    run.prepare(Ok(prompt()));
    run.begin_round(false);
    run.stream_opened(Ok(()));
    let mut d = delta_text(None, None);
    d.tool_calls.push(ToolCallDelta { index: 2, id: Some("b".into()), name: Some("list_dir".into()), arguments: None });
    d.tool_calls.push(ToolCallDelta { index: 0, id: Some("a".into()), name: Some("read_file".into()), arguments: Some("{}".into()) });
    d.tool_calls.push(ToolCallDelta { index: 1, id: None, name: Some("bash".into()), arguments: None });
    run.on_chunk(Ok(d));
    let st = run.on_stream_end();
    match st.action {
        AgentAction::RunTool(c) => assert_eq!(c.id, "a"),
        _ => panic!("expected a tool call"),
    }
    let st = run.on_tool_finished(ToolResult { ok: false, output: "boom".into() });
    assert_eq!(st.events.len(), 2);
    match &st.events[0] {
        AgentEvent::Tool { status, output, .. } => {
            assert_eq!(status, "error");
            assert_eq!(output.as_deref(), Some("boom"));
        },
        _ => panic!("expected a tool event"),
    }
    match st.action {
        AgentAction::RunTool(c) => assert_eq!(c.id, "b"),
        _ => panic!("expected the second call"),
    }
}

fn skill(name: &str, enabled: bool) -> SkillInfo {
    SkillInfo {
        name: name.into(),
        path: format!("/s/{name}"),
        description: format!("about {name}"),
        implicit: true,
        enabled,
    }
}

#[test]
fn skill_router_is_asked_once_and_only_with_enabled_skills() {
    let mut run = AgentRun::new(&cfg("deepseek-chat", 10), Vec::new(), "review");
    assert!(run.route_skills(&vec![skill("a", false)]).is_none());
    let req = run.route_skills(&vec![skill("a", false), skill("b", true)]).unwrap();
    assert_eq!(req.model, "deepseek-chat");
    assert_eq!(req.response_format, "json_object");
    assert_eq!(req.messages.len(), 2);
    assert_eq!(req.messages[0].role, Role::System);
    assert!(req.messages[1].content.contains("- b: about b"));
    assert!(!req.messages[1].content.contains("- a: about a"));
    assert!(req.messages[1].content.ends_with("User request: review"));
    // A second ask in the same turn sends nothing.
    assert!(run.route_skills(&vec![skill("b", true)]).is_none());
}

#[test]
fn streamed_requests_carry_model_stream_and_tools() {
    let mut run = AgentRun::new(&cfg("deepseek-chat", 10), Vec::new(), "hi");
    run.prepare(Ok(prompt()));
    run.begin_round(false);
    let q = run.chat_request();
    assert_eq!(q.model, "deepseek-chat");
    assert!(q.stream);
    assert_eq!(q.messages.len(), 3);
    assert_eq!(q.messages[2].content, "hi");
    let names: Vec<String> = q.tools.unwrap().iter().map(|t| t.name.clone()).collect();
    assert_eq!(names, vec!["read_file", "write_file", "edit_file", "list_dir"]);
    let mut r = AgentRun::new(&cfg("deepseek-reasoner", 10), Vec::new(), "hi");
    r.prepare(Ok(prompt()));
    r.begin_round(false);
    assert!(r.chat_request().tools.is_none());
}
