//! What the application's commands decide: the events sent to the window,
//! the checks on a chat message, the turn configuration, and the model list.
use vstd::prelude::*;
use crate::agent::{AgentConfig, AgentEvent, StoredTool};
use crate::error::AppError;
use crate::paths::{join_path, path_join};
use crate::settings::{model_successor, Settings};
use crate::workspaces::{current_of, WorkspaceState};
use crate::text::{dup_strings, is_blank, owned, str_is_blank};

verus! {

/// Payloads streamed to the window. The tag names match the frontend's event union.
#[derive(Debug, Clone)]
pub enum ChatEventPayload {
    Start { session_id: String, message_id: String },
    Stream { session_id: String, message_id: String, delta: String, reasoning: bool },
    Tool { session_id: String, message_id: String, tool: StoredTool },
    Done { session_id: String, message_id: String, content: String },
    Error { session_id: String, message_id: String, error: String },
}

/// The window payload for an agent event of the message `message_id` in the
/// session `session_id`.
pub open spec fn payload_for(session_id: String, message_id: String, ev: AgentEvent) -> ChatEventPayload {
    match ev {
        AgentEvent::Stream { delta, reasoning } => ChatEventPayload::Stream {
            session_id,
            message_id,
            delta,
            reasoning,
        },
        AgentEvent::Tool { id, name, args, status, output } => ChatEventPayload::Tool {
            session_id,
            message_id,
            tool: StoredTool { id, name, args, status, output },
        },
        AgentEvent::Done { content } => ChatEventPayload::Done { session_id, message_id, content },
        AgentEvent::Error { message } => ChatEventPayload::Error {
            session_id,
            message_id,
            error: message,
        },
    }
}

impl ChatEventPayload {
    /// The window payload for an agent event.
    pub fn from_agent_event(session_id: &String, message_id: &String, ev: AgentEvent) -> (r:
        ChatEventPayload)
        ensures
            r == payload_for(*session_id, *message_id, ev),
            ev is Stream ==> r is Stream && r->Stream_delta == ev->Stream_delta
                && r->Stream_reasoning == ev->Stream_reasoning,
    {
        let sid = session_id.clone();
        let mid = message_id.clone();
        match ev {
            AgentEvent::Stream { delta, reasoning } => ChatEventPayload::Stream {
                session_id: sid,
                message_id: mid,
                delta,
                reasoning,
            },
            AgentEvent::Tool { id, name, args, status, output } => ChatEventPayload::Tool {
                session_id: sid,
                message_id: mid,
                tool: StoredTool { id, name, args, status, output },
            },
            AgentEvent::Done { content } => ChatEventPayload::Done {
                session_id: sid,
                message_id: mid,
                content,
            },
            AgentEvent::Error { message } => ChatEventPayload::Error {
                session_id: sid,
                message_id: mid,
                error: message,
            },
        }
    }
}

/// Forwarding keeps the event: the payload carries the given session and
/// message ids and every field of the event unchanged, so answer text
/// reaches the window as answer and reasoning as reasoning.
pub proof fn lemma_payload_keeps_event(session_id: String, message_id: String, ev: AgentEvent)
    ensures
        ({
            let p = payload_for(session_id, message_id, ev);
            match ev {
                AgentEvent::Stream { delta, reasoning } => p is Stream
                    && p->Stream_session_id == session_id
                    && p->Stream_message_id == message_id
                    && p->Stream_delta == delta
                    && p->Stream_reasoning == reasoning,
                AgentEvent::Tool { id, name, args, status, output } => p is Tool
                    && p->Tool_session_id == session_id
                    && p->Tool_message_id == message_id
                    && p->Tool_tool.id == id
                    && p->Tool_tool.name == name
                    && p->Tool_tool.args == args
                    && p->Tool_tool.status == status
                    && p->Tool_tool.output == output,
                AgentEvent::Done { content } => p is Done
                    && p->Done_session_id == session_id
                    && p->Done_message_id == message_id
                    && p->Done_content == content,
                AgentEvent::Error { message } => p is Error
                    && p->Error_session_id == session_id
                    && p->Error_message_id == message_id
                    && p->Error_error == message,
            }
        }),
{
}

/// Distinct events of one message give distinct payloads: the window can
/// tell every event apart, a reasoning delta from an answer delta included.
pub proof fn lemma_payload_distinguishes_events(
    session_id: String,
    message_id: String,
    e1: AgentEvent,
    e2: AgentEvent,
)
    requires
        payload_for(session_id, message_id, e1) == payload_for(session_id, message_id, e2),
    ensures
        e1 == e2,
{
}

/// A chat message must not be blank.
pub fn check_chat_text(text: &str) -> (r: Result<(), AppError>)
    ensures
        is_blank(text@) ==> (r matches Err(AppError::Config(m)) && m@ == "消息不能为空"@),
        !is_blank(text@) ==> r is Ok,
{
    if str_is_blank(text) {
        Err(AppError::Config(owned("消息不能为空")))
    } else {
        Ok(())
    }
}

/// The directories skills are read from: the data directory's `skills`.
pub fn skill_roots(data_dir: &str) -> (r: Vec<String>)
    ensures
        r@.len() == 1,
        r@[0]@ == path_join(data_dir@, "skills"@),
{
    let mut r: Vec<String> = Vec::new();
    r.push(join_path(data_dir, "skills"));
    r
}

/// The turn configuration from the settings and the workspace registry: the
/// model in effect (legacy ids mapped to their successors), the prompt and
/// bash switch, the registry's current workspace as the sandbox root (the
/// configured workspace when the registry names none), resolved against
/// `cwd`, at least one tool round, the enabled skills, and the data
/// directory's skill root.
pub fn agent_config(settings: &Settings, workspaces: &WorkspaceState, data_dir: &str, cwd: &str) -> (c:
    AgentConfig)
    ensures
        c.model@ == model_successor(settings.model@),
        c.system_prompt == settings.system_prompt,
        c.allow_bash == settings.allow_bash,
        c.workspace_dir@ == path_join(
            cwd@,
            match current_of(*workspaces) {
                Some(w) => w.path@,
                None => settings.workspace_dir@,
            },
        ),
        c.max_tool_rounds == if settings.max_tool_rounds >= 1 {
            settings.max_tool_rounds
        } else {
            1
        },
        c.enabled_skills@ == settings.enabled_skills@,
        c.skill_roots@.len() == 1,
        c.skill_roots@[0]@ == path_join(data_dir@, "skills"@),
{
    let workspace_dir = match workspaces.current_path() {
        Some(p) => join_path(cwd, p),
        None => join_path(cwd, settings.workspace_dir.as_str()),
    };
    AgentConfig {
        model: settings.effective_model(),
        system_prompt: settings.system_prompt.clone(),
        allow_bash: settings.allow_bash,
        workspace_dir,
        max_tool_rounds: if settings.max_tool_rounds >= 1 {
            settings.max_tool_rounds
        } else {
            1
        },
        enabled_skills: dup_strings(&settings.enabled_skills),
        skill_roots: skill_roots(data_dir),
    }
}

/// An entry of the model list.
#[derive(Debug, Clone, PartialEq, Eq)]
pub struct ModelInfo {
    pub id: String,
    pub name: String,
}

/// The models offered in the settings.
pub fn models_list() -> (r: Vec<ModelInfo>)
    ensures
        r@.len() == 2,
        r@[0].id@ == "deepseek-chat"@,
        r@[0].name@ == "DeepSeek Chat (V3) - 通用对话"@,
        r@[1].id@ == "deepseek-reasoner"@,
        r@[1].name@ == "DeepSeek Reasoner (R1) - 深度推理"@,
{
    let mut r: Vec<ModelInfo> = Vec::new();
    r.push(ModelInfo { id: owned("deepseek-chat"), name: owned("DeepSeek Chat (V3) - 通用对话") });
    r.push(
        ModelInfo { id: owned("deepseek-reasoner"), name: owned("DeepSeek Reasoner (R1) - 深度推理") },
    );
    r
}

} // verus!
