//! The agent turn: the prompt stack, the conversation kept for the next turn,
//! and the decisions of the loop that streams answers and runs tools. The
//! loop itself (network, files, processes, the stop flag) is driven from
//! outside: each method here takes what happened and returns the events to
//! emit and what to do next.
use vstd::prelude::*;
use crate::calls;
use crate::deepseek::{
    lemma_msgs_view_push, msg_assistant, msg_assistant_with_tools, msg_system, msg_tool_result,
    msg_user, msgs_view, dup_messages, plain_message, ApiMessage, ChatDelta, CompletedToolCall,
    MessageView, Role,
};
use crate::error::{error_text, AppError};
use crate::text::{
    append_chars, append_str, find, find_chars, from_chars, is_blank, join, join_lines,
    lemma_join_push, owned, str_is_blank, to_chars, trim, trim_str,
};
use crate::deepseek::ToolCallDelta;
use crate::toolcalls::{absorb_map, is_ready, lists_ready_calls, SlotView, ToolCallAccumulator};
use crate::tools::{all_tools, offered_tools, payload_text, spec_view, ToolResult, ToolSpec};
use crate::skills::{
    enabled_only, enabled_skills, router_system_text, selection_prompt, skill_router_messages, RouterRequest,
    SkillInfo,
};

verus! {

/// Events streamed to the UI while the agent runs.
#[derive(Debug, Clone)]
pub enum AgentEvent {
    Stream { delta: String, reasoning: bool },
    Tool { id: String, name: String, args: String, status: String, output: Option<String> },
    Done { content: String },
    Error { message: String },
}

/// Display-level tool record persisted with the message.
#[derive(Debug, Clone, PartialEq, Eq)]
pub struct StoredTool {
    pub id: String,
    pub name: String,
    pub args: String,
    pub status: String,
    pub output: Option<String>,
}

/// What one agent turn works with. The sampling temperature is not here: the
/// library never reads it, and the request is written where it is sent.
#[derive(Debug, Clone)]
pub struct AgentConfig {
    pub model: String,
    pub system_prompt: String,
    pub allow_bash: bool,
    pub workspace_dir: String,
    pub max_tool_rounds: usize,
    pub enabled_skills: Vec<String>,
    pub skill_roots: Vec<String>,
}

/// The result of one turn.
pub struct AgentOutput {
    /// Final assistant message content.
    pub content: String,
    pub reasoning: String,
    pub tools: Vec<StoredTool>,
    /// Full conversation in the wire format (system prompts excluded), ready
    /// to be persisted for the next turn.
    pub api_messages: Vec<ApiMessage>,
}

// ---------------------------------------------------------------------------
// Conversation
// ---------------------------------------------------------------------------

/// The messages of `s` that are not system prompts, in order.
pub open spec fn without_system(s: Seq<MessageView>) -> Seq<MessageView>
    decreases s.len(),
{
    if s.len() == 0 {
        seq![]
    } else if s.last().role is System {
        without_system(s.drop_last())
    } else {
        without_system(s.drop_last()).push(s.last())
    }
}

/// No message of `s` is a system prompt.
pub open spec fn no_system(s: Seq<MessageView>) -> bool {
    forall|i: int| 0 <= i < s.len() ==> !(#[trigger] s[i].role is System)
}

/// Dropping system prompts distributes over concatenation.
pub proof fn lemma_without_system_add(a: Seq<MessageView>, b: Seq<MessageView>)
    ensures
        without_system(a + b) == without_system(a) + without_system(b),
    decreases b.len(),
{
    if b.len() == 0 {
        assert(a + b =~= a);
        assert(without_system(a) + without_system(b) =~= without_system(a));
    } else {
        assert((a + b).drop_last() =~= a + b.drop_last());
        lemma_without_system_add(a, b.drop_last());
        if b.last().role is System {
        } else {
            assert(without_system(a) + without_system(b.drop_last()).push(b.last()) =~= (
            without_system(a) + without_system(b.drop_last())).push(b.last()));
        }
    }
}

/// What is left has no system prompt, and a sequence without any is left whole.
pub proof fn lemma_without_system_props(s: Seq<MessageView>)
    ensures
        no_system(without_system(s)),
        no_system(s) ==> without_system(s) == s,
        without_system(s).len() <= s.len(),
    decreases s.len(),
{
    if s.len() > 0 {
        lemma_without_system_props(s.drop_last());
        if no_system(s) {
            assert(no_system(s.drop_last())) by {
                assert forall|i: int| 0 <= i < s.drop_last().len() implies !(
                #[trigger] s.drop_last()[i].role is System) by {
                    assert(s.drop_last()[i] == s[i]);
                }
            }
            assert(!(s[s.len() - 1].role is System));
            assert(s.drop_last().push(s.last()) =~= s);
        }
        if !(s.last().role is System) {
            let w = without_system(s.drop_last());
            assert forall|i: int| 0 <= i < w.push(s.last()).len() implies !(
            #[trigger] w.push(s.last())[i].role is System) by {
                if i < w.len() {
                    assert(w.push(s.last())[i] == w[i]);
                }
            }
        }
    }
}

/// Strip system prompts from a message list so the persisted conversation
/// stays free of prompt-stack content (prevents accumulation across turns).
pub fn conversation_only(messages: &[ApiMessage]) -> (r: Vec<ApiMessage>)
    ensures
        msgs_view(r@) == without_system(msgs_view(messages@)),
{
    let mut r: Vec<ApiMessage> = Vec::new();
    let mut i: usize = 0;
    while i < messages.len()
        invariant
            i <= messages.len(),
            msgs_view(r@) == without_system(msgs_view(messages@.subrange(0, i as int))),
        decreases messages.len() - i,
    {
        let ghost before = r@;
        proof {
            assert(msgs_view(messages@.subrange(0, i + 1)).drop_last() =~= msgs_view(
                messages@.subrange(0, i as int),
            ));
            assert(msgs_view(messages@.subrange(0, i + 1)).last() == messages@[i as int]@);
        }
        if !messages[i].is_system() {
            r.push(messages[i].duplicate());
            proof {
                lemma_msgs_view_push(before, r@.last());
                assert(r@ =~= before.push(r@.last()));
            }
        }
        i += 1;
    }
    assert(messages@.subrange(0, messages.len() as int) =~= messages@);
    r
}

// ---------------------------------------------------------------------------
// Prompt stack
// ---------------------------------------------------------------------------

/// The fixed base of the system prompt.
pub open spec fn base_prompt() -> Seq<char> {
    "You are DeepSeek App, a desktop AI assistant powered by the DeepSeek API.\n\nGuidelines:\n- Be concise and precise. Use Markdown for structure (code blocks, lists, tables) when helpful.\n- When the user asks about files or code, inspect the workspace with the available tools before answering.\n- After completing a file task, summarize what changed and why.\n- If a tool call fails, try a reasonable fix once, then report clearly.\n- Never claim you ran something you did not run. Always verify with tools when you can."@
}

/// The parts of the system prompt: the base; the workspace's `AGENTS.md`
/// when it has one that is not blank; the user's extra instructions when not
/// blank; the skill documents when not blank.
pub open spec fn prompt_parts(
    agents_md: Option<Seq<char>>,
    system_prompt: Seq<char>,
    skill_docs: Seq<char>,
) -> Seq<Seq<char>> {
    let p1 = seq![base_prompt()];
    let p2 = match agents_md {
        Some(c) => if !is_blank(c) {
            p1.push("Project agent instructions (AGENTS.md):\n"@ + trim(c))
        } else {
            p1
        },
        None => p1,
    };
    let p3 = if !is_blank(system_prompt) {
        p2.push("Additional user instructions:\n"@ + trim(system_prompt))
    } else {
        p2
    };
    if !is_blank(skill_docs) {
        p3.push(skill_docs)
    } else {
        p3
    }
}

/// The system prompt: its parts separated by blank lines.
pub open spec fn system_prompt_text(
    agents_md: Option<Seq<char>>,
    system_prompt: Seq<char>,
    skill_docs: Seq<char>,
) -> Seq<char> {
    join(prompt_parts(agents_md, system_prompt, skill_docs), "\n\n"@)
}

/// Builds the system prompt from the workspace's `AGENTS.md` (when it could
/// be read), the user's extra instructions and the skill documents.
pub fn build_system_prompt(agents_md: Option<&str>, system_prompt: &str, skill_docs: &str) -> (r:
    String)
    ensures
        r@ == system_prompt_text(
            match agents_md {
                Some(c) => Some(c@),
                None => None,
            },
            system_prompt@,
            skill_docs@,
        ),
{
    let ghost am = match agents_md {
        Some(c) => Some(c@),
        None => None,
    };
    let mut parts: Vec<Vec<char>> = Vec::new();
    parts.push(to_chars(
        "You are DeepSeek App, a desktop AI assistant powered by the DeepSeek API.\n\nGuidelines:\n- Be concise and precise. Use Markdown for structure (code blocks, lists, tables) when helpful.\n- When the user asks about files or code, inspect the workspace with the available tools before answering.\n- After completing a file task, summarize what changed and why.\n- If a tool call fails, try a reasonable fix once, then report clearly.\n- Never claim you ran something you did not run. Always verify with tools when you can.",
    ));
    assert(parts@.map_values(|l: Vec<char>| l@) =~= seq![base_prompt()]);
    match agents_md {
        Some(c) => {
            if !str_is_blank(c) {
                let mut part = to_chars("Project agent instructions (AGENTS.md):\n");
                let t = trim_str(c);
                append_chars(&mut part, &t);
                let ghost before = parts@.map_values(|l: Vec<char>| l@);
                parts.push(part);
                assert(parts@.map_values(|l: Vec<char>| l@) =~= before.push(part@));
            }
        },
        None => {},
    }
    if !str_is_blank(system_prompt) {
        let mut part = to_chars("Additional user instructions:\n");
        let t = trim_str(system_prompt);
        append_chars(&mut part, &t);
        let ghost before = parts@.map_values(|l: Vec<char>| l@);
        parts.push(part);
        assert(parts@.map_values(|l: Vec<char>| l@) =~= before.push(part@));
    }
    if !str_is_blank(skill_docs) {
        let part = to_chars(skill_docs);
        let ghost before = parts@.map_values(|l: Vec<char>| l@);
        parts.push(part);
        assert(parts@.map_values(|l: Vec<char>| l@) =~= before.push(part@));
    }
    assert(parts@.map_values(|l: Vec<char>| l@) == prompt_parts(am, system_prompt@, skill_docs@));
    let sep = to_chars("\n\n");
    let all = join_lines(&parts, &sep);
    from_chars(&all)
}

/// The runtime context block, given the JSON string literals of the current
/// time, the model, the platform and the workspace: a pretty-printed JSON
/// object, keys in `serde_json` order.
pub open spec fn runtime_context_from(
    now_q: Seq<char>,
    model_q: Seq<char>,
    platform_q: Seq<char>,
    workspace_q: Seq<char>,
) -> Seq<char> {
    "Runtime context:\n{\n  \"current_time\": "@ + now_q + ",\n  \"model\": "@ + model_q
        + ",\n  \"platform\": "@ + platform_q + ",\n  \"workspace\": "@ + workspace_q + "\n}"@
}

/// The runtime context block: the current time, the model, the platform and
/// the workspace as a pretty-printed JSON object, keys in `serde_json` order.
pub open spec fn runtime_context_text(
    now: Seq<char>,
    model: Seq<char>,
    platform: Seq<char>,
    workspace: Seq<char>,
) -> Seq<char> {
    runtime_context_from(
        calls::json_string_literal(now),
        calls::json_string_literal(model),
        calls::json_string_literal(platform),
        calls::json_string_literal(workspace),
    )
}

/// The runtime context block for the given moment.
pub fn runtime_context_at(now: &str, model: &str, platform: &str, workspace: &str) -> (r: String)
    ensures
        r@ == runtime_context_text(now@, model@, platform@, workspace@),
{
    let now_q = calls::json_quote(now);
    let model_q = calls::json_quote(model);
    let platform_q = calls::json_quote(platform);
    let workspace_q = calls::json_quote(workspace);
    runtime_context_quoted(now_q.as_str(), model_q.as_str(), platform_q.as_str(), workspace_q.as_str())
}

/// The runtime context block from the four values already written as JSON
/// string literals.
pub fn runtime_context_quoted(now_q: &str, model_q: &str, platform_q: &str, workspace_q: &str) -> (r:
    String)
    ensures
        r@ == runtime_context_from(now_q@, model_q@, platform_q@, workspace_q@),
{
    let mut out: Vec<char> = Vec::new();
    append_str(&mut out, "Runtime context:\n{\n  \"current_time\": ");
    append_str(&mut out, now_q);
    append_str(&mut out, ",\n  \"model\": ");
    append_str(&mut out, model_q);
    append_str(&mut out, ",\n  \"platform\": ");
    append_str(&mut out, platform_q);
    append_str(&mut out, ",\n  \"workspace\": ");
    append_str(&mut out, workspace_q);
    append_str(&mut out, "\n}");
    from_chars(&out)
}

/// The runtime context block at the current local time.
pub fn runtime_context(cfg: &AgentConfig, platform: &str) -> (r: String)
    ensures
        exists|now: Seq<char>|
            r@ == runtime_context_text(now, cfg.model@, platform@, cfg.workspace_dir@),
{
    let now = calls::local_timestamp();
    runtime_context_at(now.as_str(), cfg.model.as_str(), platform, cfg.workspace_dir.as_str())
}

// ---------------------------------------------------------------------------
// Event logs
// ---------------------------------------------------------------------------

/// The text of the stream events of one kind (answer or reasoning) in a log,
/// concatenated in order.
pub open spec fn streamed(log: Seq<AgentEvent>, reasoning: bool) -> Seq<char>
    decreases log.len(),
{
    if log.len() == 0 {
        seq![]
    } else {
        let rest = streamed(log.drop_last(), reasoning);
        match log.last() {
            AgentEvent::Stream { delta, reasoning: r } => if r == reasoning {
                rest + delta@
            } else {
                rest
            },
            _ => rest,
        }
    }
}

/// How many `Done` events a log holds.
pub open spec fn count_done(log: Seq<AgentEvent>) -> nat
    decreases log.len(),
{
    if log.len() == 0 {
        0
    } else {
        count_done(log.drop_last()) + if log.last() is Done {
            1nat
        } else {
            0nat
        }
    }
}

/// How many `Error` events a log holds.
pub open spec fn count_error(log: Seq<AgentEvent>) -> nat
    decreases log.len(),
{
    if log.len() == 0 {
        0
    } else {
        count_error(log.drop_last()) + if log.last() is Error {
            1nat
        } else {
            0nat
        }
    }
}

/// Logs compose: what a longer log streamed and counted is the sum of its parts.
pub proof fn lemma_log_add(a: Seq<AgentEvent>, b: Seq<AgentEvent>)
    ensures
        streamed(a + b, false) == streamed(a, false) + streamed(b, false),
        streamed(a + b, true) == streamed(a, true) + streamed(b, true),
        count_done(a + b) == count_done(a) + count_done(b),
        count_error(a + b) == count_error(a) + count_error(b),
    decreases b.len(),
{
    if b.len() == 0 {
        assert(a + b =~= a);
        assert(streamed(a, false) + streamed(b, false) =~= streamed(a, false));
        assert(streamed(a, true) + streamed(b, true) =~= streamed(a, true));
    } else {
        assert((a + b).drop_last() =~= a + b.drop_last());
        lemma_log_add(a, b.drop_last());
        assert((a + b).last() == b.last());
        match b.last() {
            AgentEvent::Stream { delta, reasoning } => {
                assert(streamed(a, false) + streamed(b.drop_last(), false) + delta@ =~= streamed(
                    a,
                    false,
                ) + (streamed(b.drop_last(), false) + delta@));
                assert(streamed(a, true) + streamed(b.drop_last(), true) + delta@ =~= streamed(
                    a,
                    true,
                ) + (streamed(b.drop_last(), true) + delta@));
            },
            _ => {},
        }
    }
}

// ---------------------------------------------------------------------------
// The turn state machine
// ---------------------------------------------------------------------------

/// Where a turn stands.
#[derive(Debug, Clone, Copy, PartialEq, Eq)]
pub enum RunPhase {
    /// Waiting for the system prompt (skill selection and prompt assembly).
    Preparing,
    /// Between rounds: waiting for the stop flag to be read.
    AwaitRound,
    /// A request was sent: waiting for the stream to open.
    Opening,
    /// Reading the stream of one round.
    Streaming,
    /// Running the tool calls of a round.
    RunningTool,
    /// The turn ended with an answer (or was stopped).
    Finished,
    /// The turn failed.
    Failed,
}

/// The system prompt stack of a turn.
pub struct PreparedPrompt {
    pub system_prompt: String,
    pub runtime_context: String,
}

/// What to do next.
pub enum AgentAction {
    /// Read the stop flag and call `begin_round`.
    CheckStop,
    /// Send `messages()` (with the tool schemas when `with_tools`) and call
    /// `stream_opened`.
    OpenStream { with_tools: bool },
    /// Read the next stream item: call `on_chunk`, or `on_stop_seen` when the
    /// stop flag is set as an item arrives, or `on_stream_end`.
    NextChunk,
    /// Run this tool call and call `on_tool_finished`.
    RunTool(CompletedToolCall),
    /// The turn is over.
    Finish(AgentOutput),
    /// The turn failed.
    Fail(AppError),
}

/// The events to emit, then the action to take.
pub struct AgentStep {
    pub events: Vec<AgentEvent>,
    pub action: AgentAction,
}

/// The view of a user message.
pub open spec fn user_view(text: Seq<char>) -> MessageView {
    MessageView {
        role: Role::User,
        content: text,
        reasoning_content: None,
        tool_calls: seq![],
        tool_call_id: None,
    }
}

/// The view of an assistant message without tool calls.
pub open spec fn assistant_view(text: Seq<char>) -> MessageView {
    MessageView {
        role: Role::Assistant,
        content: text,
        reasoning_content: None,
        tool_calls: seq![],
        tool_call_id: None,
    }
}

/// A streamed chat-completions request.
pub struct ChatRequest {
    pub model: String,
    pub messages: Vec<ApiMessage>,
    pub stream: bool,
    /// The tool schemas, when the model is offered tools.
    pub tools: Option<Vec<ToolSpec>>,
}

/// The state of one agent turn.
pub struct AgentRun {
    max_rounds: usize,
    with_tools: bool,
    phase: RunPhase,
    pending: Vec<ApiMessage>,
    messages: Vec<ApiMessage>,
    content: Vec<char>,
    reasoning: Vec<char>,
    tools: Vec<StoredTool>,
    round: usize,
    round_content: Vec<char>,
    round_reasoning: Vec<char>,
    acc: ToolCallAccumulator,
    calls: Vec<CompletedToolCall>,
    next_call: usize,
    answered: bool,
    log: Ghost<Seq<AgentEvent>>,
    prefix: Ghost<Seq<MessageView>>,
    conversation: Ghost<Seq<MessageView>>,
    turn: Ghost<Seq<MessageView>>,
    requests: Ghost<nat>,
    round_tools_start: Ghost<nat>,
    model: String,
    allow_bash: bool,
    user_text: String,
    router_asked: bool,
}

/// Whether the tool list of a model is sent: models whose name contains
/// `reasoner` have no function calling.
pub open spec fn model_uses_tools(model: Seq<char>) -> bool {
    find(model, "reasoner"@) is None
}

impl AgentRun {
    /// The phase of the turn.
    pub closed spec fn phase(&self) -> RunPhase {
        self.phase
    }

    /// Every event this turn has asked to emit, in order.
    pub closed spec fn log(&self) -> Seq<AgentEvent> {
        self.log@
    }

    /// The conversation carried over: the prior history without system
    /// prompts, then the new user message.
    pub closed spec fn conversation(&self) -> Seq<MessageView> {
        self.conversation@
    }

    /// The messages this turn added after the user message.
    pub closed spec fn turn(&self) -> Seq<MessageView> {
        self.turn@
    }

    /// The tool records of this turn.
    pub closed spec fn tools(&self) -> Seq<StoredTool> {
        self.tools@
    }

    /// Whether the turn ended with a final answer of the model.
    pub closed spec fn answered(&self) -> bool {
        self.answered
    }

    /// The answer text so far.
    pub closed spec fn content(&self) -> Seq<char> {
        self.content@
    }

    /// The tool-call fragments collected in the current round, by position.
    pub closed spec fn fragments(&self) -> Map<usize, SlotView> {
        self.acc@
    }

    /// The message stack as it stands.
    pub closed spec fn stack(&self) -> Seq<MessageView> {
        msgs_view(self.messages@)
    }

    /// The round count.
    pub closed spec fn rounds(&self) -> nat {
        self.round as nat
    }

    /// The round limit.
    pub closed spec fn max_rounds(&self) -> nat {
        self.max_rounds as nat
    }

    /// Whether requests carry the tool list.
    pub closed spec fn with_tools(&self) -> bool {
        self.with_tools
    }

    /// The answer text streamed in the current round.
    pub closed spec fn round_text(&self) -> Seq<char> {
        self.round_content@
    }

    /// The reasoning streamed in the current round.
    pub closed spec fn round_reasoning_text(&self) -> Seq<char> {
        self.round_reasoning@
    }

    /// The reasoning streamed in the whole turn.
    pub closed spec fn reasoning_text(&self) -> Seq<char> {
        self.reasoning@
    }

    /// The model the turn asks.
    pub closed spec fn model(&self) -> Seq<char> {
        self.model@
    }

    /// Whether the turn offers `bash`.
    pub closed spec fn allow_bash(&self) -> bool {
        self.allow_bash
    }

    /// The user's message of the turn.
    pub closed spec fn user_text(&self) -> Seq<char> {
        self.user_text@
    }

    /// How many skill-router requests the turn has asked for.
    pub closed spec fn router_requests(&self) -> nat {
        if self.router_asked {
            1
        } else {
            0
        }
    }

    /// How many requests the turn has sent.
    pub closed spec fn requests(&self) -> nat {
        self.requests@
    }

    /// How many tool records the turn held when the current round's calls began.
    pub closed spec fn round_tools_start(&self) -> nat {
        self.round_tools_start@
    }

    /// The two system prompts sent first in every request of the turn.
    pub closed spec fn prompt_stack(&self) -> Seq<MessageView> {
        self.prefix@
    }

    /// The tool calls of the current round, in the order they are run.
    pub closed spec fn round_calls(&self) -> Seq<CompletedToolCall> {
        self.calls@
    }

    /// How many calls of the current round have finished.
    pub closed spec fn calls_done(&self) -> nat {
        self.next_call as nat
    }

    /// The tool call being run.
    pub open spec fn current_call(&self) -> CompletedToolCall {
        self.round_calls()[self.calls_done() as int]
    }

    /// The turn is over (answered, stopped or failed).
    pub open spec fn is_over(&self) -> bool {
        self.phase() is Finished || self.phase() is Failed
    }

    /// The invariant of a turn.
    pub closed spec fn wf(&self) -> bool {
        &&& self.acc.wf()
        &&& no_system(self.conversation@)
        &&& no_system(self.turn@)
        &&& (self.phase is Preparing ==> {
            &&& self.messages@.len() == 0
            &&& self.turn@.len() == 0
            &&& msgs_view(self.pending@) == self.conversation@
        })
        &&& (!self.is_over() ==> !self.answered)
        &&& ((self.phase is Opening || self.phase is Streaming || self.phase is RunningTool)
            ==> self.round < self.max_rounds)
        &&& self.round <= self.max_rounds
        &&& self.requests@ <= self.max_rounds
        &&& ((self.phase is Preparing || self.phase is AwaitRound) ==> self.requests@ == self.round)
        &&& ((self.phase is Opening || self.phase is Streaming || self.phase is RunningTool)
            ==> self.requests@ == self.round + 1)
        &&& (self.phase is RunningTool ==> {
            &&& self.tools@.len() == self.round_tools_start@ + self.next_call
            &&& forall|k: int|
                0 <= k < self.next_call ==> {
                    &&& (#[trigger] self.tools@[self.round_tools_start@ + k]).id == self.calls@[k].id
                    &&& self.tools@[self.round_tools_start@ + k].name == self.calls@[k].name
                    &&& self.tools@[self.round_tools_start@ + k].args == self.calls@[k].arguments
                }
        })
        &&& (!(self.phase is Preparing || self.phase is Failed) ==> {
            &&& self.prefix@.len() == 2
            &&& self.prefix@[0].role is System
            &&& self.prefix@[1].role is System
            &&& msgs_view(self.messages@) == self.prefix@ + self.conversation@ + self.turn@
        })
        &&& self.content@ == streamed(self.log@, false)
        &&& self.reasoning@ == streamed(self.log@, true)
        &&& (!self.is_over() ==> count_done(self.log@) == 0 && count_error(self.log@) == 0)
        &&& (self.phase is Finished ==> {
            &&& count_done(self.log@) == 1
            &&& count_error(self.log@) == 0
            &&& self.log@.len() > 0
            &&& self.log@.last() == (AgentEvent::Done { content: self.log@.last()->Done_content })
            &&& self.log@.last()->Done_content@ == self.content@
        })
        &&& (self.phase is Failed ==> {
            &&& count_error(self.log@) == 1
            &&& count_done(self.log@) == 0
            &&& self.log@.len() > 0
            &&& self.log@.last() is Error
        })
        &&& (self.phase is RunningTool ==> self.next_call < self.calls@.len())
        &&& (self.tools@.len() == 0 ==> {
            &&& (self.phase is Preparing || self.phase is AwaitRound) ==> self.content@.len() == 0
            &&& (self.phase is Preparing || self.phase is AwaitRound || self.phase is Opening
                || self.phase is Streaming) ==> self.turn@.len() == 0
            &&& (self.phase is Opening || self.phase is Streaming) ==> self.round_content@
                == self.content@
            &&& (self.phase is Finished && self.answered) ==> self.turn@ == seq![
                assistant_view(self.content@),
            ]
            &&& (self.phase is Finished && !self.answered) ==> self.turn@.len() == 0
        })
    }

    /// A turn for the user message `user_text`, continuing the conversation `history`.
    pub fn new(cfg: &AgentConfig, history: Vec<ApiMessage>, user_text: &str) -> (r: AgentRun)
        ensures
            r.wf(),
            r.phase() is Preparing,
            r.log().len() == 0,
            r.conversation() == without_system(msgs_view(history@)).push(user_view(user_text@)),
            r.turn().len() == 0,
            r.tools().len() == 0,
            r.rounds() == 0,
            r.requests() == 0,
            r.model() == cfg.model@,
            r.allow_bash() == cfg.allow_bash,
            r.user_text() == user_text@,
            r.router_requests() == 0,
            r.max_rounds() == cfg.max_tool_rounds,
            r.with_tools() == model_uses_tools(cfg.model@),
            !r.answered(),
    {
        let mut pending = conversation_only(&history);
        let u = msg_user(user_text);
        let ghost before = pending@;
        pending.push(u);
        proof {
            lemma_msgs_view_push(before, u);
            assert(pending@ =~= before.push(u));
            assert(u@ =~= user_view(user_text@)) by {
                assert(u.tool_calls@ =~= Seq::<CompletedToolCall>::empty());
            }
            lemma_without_system_props(msgs_view(history@));
            let c = without_system(msgs_view(history@)).push(user_view(user_text@));
            assert(no_system(c)) by {
                assert forall|i: int| 0 <= i < c.len() implies !(#[trigger] c[i].role is System) by {
                    if i < c.len() - 1 {
                        assert(c[i] == without_system(msgs_view(history@))[i]);
                    }
                }
            }
        }
        let model = to_chars(cfg.model.as_str());
        let key = to_chars("reasoner");
        let with_tools = find_chars(&model, &key).is_none();
        let r = AgentRun {
            max_rounds: cfg.max_tool_rounds,
            with_tools,
            phase: RunPhase::Preparing,
            pending,
            messages: Vec::new(),
            content: Vec::new(),
            reasoning: Vec::new(),
            tools: Vec::new(),
            round: 0,
            round_content: Vec::new(),
            round_reasoning: Vec::new(),
            acc: ToolCallAccumulator::new(),
            calls: Vec::new(),
            next_call: 0,
            answered: false,
            log: Ghost(Seq::empty()),
            prefix: Ghost(Seq::empty()),
            conversation: Ghost(without_system(msgs_view(history@)).push(user_view(user_text@))),
            turn: Ghost(Seq::empty()),
            requests: Ghost(0),
            round_tools_start: Ghost(0),
            model: cfg.model.clone(),
            allow_bash: cfg.allow_bash,
            user_text: owned(user_text),
            router_asked: false,
        };
        assert(no_system(r.turn@));
        r
    }

    /// Decides the skill-router request of the turn, before the prompt is
    /// prepared: one request, over the enabled skills found, when there is
    /// one and none was asked for yet; otherwise none.
    pub fn route_skills(&mut self, found: &Vec<SkillInfo>) -> (r: Option<RouterRequest>)
        requires
            old(self).wf(),
            old(self).phase() is Preparing,
        ensures
            final(self).wf(),
            final(self).phase() is Preparing,
            final(self).log() == old(self).log(),
            final(self).conversation() == old(self).conversation(),
            final(self).turn() == old(self).turn(),
            final(self).tools() == old(self).tools(),
            final(self).content() == old(self).content(),
            final(self).rounds() == old(self).rounds(),
            final(self).max_rounds() == old(self).max_rounds(),
            final(self).with_tools() == old(self).with_tools(),
            final(self).requests() == old(self).requests(),
            final(self).model() == old(self).model(),
            final(self).allow_bash() == old(self).allow_bash(),
            final(self).user_text() == old(self).user_text(),
            r is Some <==> (old(self).router_requests() == 0 && enabled_skills(found@).len() > 0),
            final(self).router_requests() == if r is Some {
                1
            } else {
                old(self).router_requests()
            },
            r matches Some(q) ==> {
                &&& q.model@ == old(self).model()
                &&& q.response_format@ == "json_object"@
                &&& q.messages@.len() == 2
                &&& plain_message(Role::System, router_system_text(), q.messages@[0])
                &&& plain_message(
                    Role::User,
                    selection_prompt(enabled_skills(found@), old(self).user_text()),
                    q.messages@[1],
                )
            },
    {
        if self.router_asked {
            return None;
        }
        let enabled = enabled_only(found);
        if enabled.len() == 0 {
            return None;
        }
        self.router_asked = true;
        Some(
            RouterRequest {
                model: self.model.clone(),
                messages: skill_router_messages(&enabled, self.user_text.as_str()),
                response_format: owned("json_object"),
            },
        )
    }

    /// The streamed request of the current round: the turn's model, the
    /// message stack, `stream` on, and the tool schemas unless the model
    /// has no function calling.
    pub fn chat_request(&self) -> (q: ChatRequest)
        requires
            self.wf(),
            !(self.phase() is Preparing || self.phase() is Failed),
        ensures
            q.model@ == self.model(),
            q.stream,
            msgs_view(q.messages@) == self.prompt_stack() + self.conversation() + self.turn(),
            q.tools is Some <==> self.with_tools(),
            q.tools matches Some(t) ==> t@.map_values(|x: ToolSpec| spec_view(x)) == offered_tools(
                self.allow_bash(),
            ),
    {
        let m = self.messages();
        let messages = dup_messages(m);
        let tools = if self.with_tools {
            Some(all_tools(self.allow_bash))
        } else {
            None
        };
        ChatRequest { model: self.model.clone(), messages, stream: true, tools }
    }

    /// The phase of the turn.
    pub fn current_phase(&self) -> (p: RunPhase)
        ensures
            p == self.phase(),
    {
        self.phase
    }

    /// The message stack to send: the two system prompts, the conversation,
    /// and what this turn added.
    pub fn messages(&self) -> (m: &Vec<ApiMessage>)
        requires
            self.wf(),
            !(self.phase() is Preparing || self.phase() is Failed),
        ensures
            msgs_view(m@).len() == 2 + self.conversation().len() + self.turn().len(),
            msgs_view(m@).subrange(2, msgs_view(m@).len() as int) == self.conversation()
                + self.turn(),
            msgs_view(m@)[0].role is System,
            msgs_view(m@)[1].role is System,
            msgs_view(m@) == self.prompt_stack() + self.conversation() + self.turn(),
    {
        proof {
            let v = msgs_view(self.messages@);
            assert(v.subrange(2, v.len() as int) =~= self.conversation@ + self.turn@);
            assert(v[0] == self.prefix@[0]);
            assert(v[1] == self.prefix@[1]);
        }
        &self.messages
    }

    /// The prompt stack is ready (or skill selection failed): the system
    /// prompt and the runtime context go first, then the conversation.
    pub fn prepare(&mut self, outcome: Result<PreparedPrompt, AppError>) -> (st: AgentStep)
        requires
            old(self).wf(),
            old(self).phase() is Preparing,
        ensures
            final(self).wf(),
            final(self).model() == old(self).model(),
            final(self).allow_bash() == old(self).allow_bash(),
            final(self).router_requests() == old(self).router_requests(),
            final(self).requests() == old(self).requests(),
            final(self).log() == old(self).log() + st.events@,
            final(self).conversation() == old(self).conversation(),
            final(self).tools() == old(self).tools(),
            final(self).rounds() == old(self).rounds(),
            final(self).max_rounds() == old(self).max_rounds(),
            final(self).with_tools() == old(self).with_tools(),
            match outcome {
                Ok(p) => {
                    &&& final(self).phase() is AwaitRound
                    &&& st.events@.len() == 0
                    &&& st.action is CheckStop
                    &&& final(self).turn().len() == 0
                    &&& final(self).prompt_stack() == seq![
                        MessageView {
                            role: Role::System,
                            content: p.system_prompt@,
                            reasoning_content: None,
                            tool_calls: seq![],
                            tool_call_id: None,
                        },
                        MessageView {
                            role: Role::System,
                            content: p.runtime_context@,
                            reasoning_content: None,
                            tool_calls: seq![],
                            tool_call_id: None,
                        },
                    ]
                    &&& final(self).stack() == seq![
                        MessageView {
                            role: Role::System,
                            content: p.system_prompt@,
                            reasoning_content: None,
                            tool_calls: seq![],
                            tool_call_id: None,
                        },
                        MessageView {
                            role: Role::System,
                            content: p.runtime_context@,
                            reasoning_content: None,
                            tool_calls: seq![],
                            tool_call_id: None,
                        },
                    ] + old(self).conversation()
                },
                Err(e) => {
                    &&& final(self).phase() is Failed
                    &&& st.events@ == seq![AgentEvent::Error { message: st.events@[0]->Error_message }]
                    &&& st.events@[0]->Error_message@ == error_text(e)
                    &&& st.action == AgentAction::Fail(e)
                },
            },
    {
        match outcome {
            Err(e) => {
                let st = self.fail(e);
                assert(st.events@ =~= seq![AgentEvent::Error { message: st.events@[0]->Error_message }]);
                st
            },
            Ok(p) => {
                let a = msg_system(p.system_prompt.as_str());
                let b = msg_system(p.runtime_context.as_str());
                let mut stack: Vec<ApiMessage> = Vec::new();
                stack.push(a);
                stack.push(b);
                let ghost head = msgs_view(stack@);
                proof {
                    assert(a.tool_calls@ =~= Seq::<CompletedToolCall>::empty());
                    assert(b.tool_calls@ =~= Seq::<CompletedToolCall>::empty());
                    assert(head =~= seq![a@, b@]);
                }
                let mut pending: Vec<ApiMessage> = Vec::new();
                std::mem::swap(&mut pending, &mut self.pending);
                let mut i: usize = 0;
                while i < pending.len()
                    invariant
                        i <= pending.len(),
                        msgs_view(stack@) == head + msgs_view(pending@.subrange(0, i as int)),
                    decreases pending.len() - i,
                {
                    let ghost before = stack@;
                    stack.push(pending[i].duplicate());
                    proof {
                        lemma_msgs_view_push(before, stack@.last());
                        assert(stack@ =~= before.push(stack@.last()));
                        assert(msgs_view(pending@.subrange(0, i + 1)) =~= msgs_view(
                            pending@.subrange(0, i as int),
                        ).push(pending@[i as int]@));
                        assert(head + msgs_view(pending@.subrange(0, i as int)).push(
                            pending@[i as int]@,
                        ) =~= (head + msgs_view(pending@.subrange(0, i as int))).push(
                            pending@[i as int]@,
                        ));
                    }
                    i += 1;
                }
                proof {
                    assert(pending@.subrange(0, pending.len() as int) =~= pending@);
                    self.prefix@ = head;
                    assert(head + self.conversation@ + self.turn@ =~= head + self.conversation@);
                }
                self.messages = stack;
                self.phase = RunPhase::AwaitRound;
                let st = AgentStep { events: Vec::new(), action: AgentAction::CheckStop };
                assert(self.log@ + st.events@ =~= self.log@);
                st
            },
        }
    }

    /// Between rounds, with the stop flag as read: a stop, or the round limit,
    /// ends the turn with what was answered so far; otherwise a request is sent.
    pub fn begin_round(&mut self, stop: bool) -> (st: AgentStep)
        requires
            old(self).wf(),
            old(self).phase() is AwaitRound,
        ensures
            final(self).wf(),
            final(self).model() == old(self).model(),
            final(self).allow_bash() == old(self).allow_bash(),
            final(self).router_requests() == old(self).router_requests(),
            final(self).requests() == old(self).requests() + if final(self).phase() is Opening {
                1nat
            } else {
                0nat
            },
            final(self).prompt_stack() == old(self).prompt_stack(),
            final(self).log() == old(self).log() + st.events@,
            final(self).conversation() == old(self).conversation(),
            final(self).turn() == old(self).turn(),
            final(self).tools() == old(self).tools(),
            final(self).content() == old(self).content(),
            final(self).rounds() == old(self).rounds(),
            final(self).max_rounds() == old(self).max_rounds(),
            final(self).with_tools() == old(self).with_tools(),
            final(self).reasoning_text() == old(self).reasoning_text(),
            if stop || old(self).rounds() >= old(self).max_rounds() {
                &&& final(self).phase() is Finished
                &&& !final(self).answered()
                &&& st.events@ == seq![AgentEvent::Done { content: st.events@[0]->Done_content }]
                &&& st.events@[0]->Done_content@ == old(self).content()
                &&& st.action matches AgentAction::Finish(o) && o.content@ == old(self).content()
                    && o.reasoning@ == old(self).reasoning_text() && o.tools@ == old(self).tools()
                    && msgs_view(o.api_messages@) == old(self).conversation() + old(self).turn()
            } else {
                &&& final(self).phase() is Opening
                &&& st.events@.len() == 0
                &&& st.action == (AgentAction::OpenStream { with_tools: old(self).with_tools() })
                &&& final(self).stack() == old(self).stack()
                &&& final(self).fragments() == Map::<usize, SlotView>::empty()
                &&& final(self).round_text().len() == 0
                &&& final(self).round_reasoning_text().len() == 0
            },
    {
        if stop || self.round >= self.max_rounds {
            let st = self.conclude(false);
            assert(st.events@ =~= seq![AgentEvent::Done { content: st.events@[0]->Done_content }]);
            return st;
        }
        self.round_content = Vec::new();
        self.round_reasoning = Vec::new();
        self.acc = ToolCallAccumulator::new();
        self.phase = RunPhase::Opening;
        proof {
            self.requests@ = self.requests@ + 1;
        }
        let st = AgentStep {
            events: Vec::new(),
            action: AgentAction::OpenStream { with_tools: self.with_tools },
        };
        assert(self.log@ + st.events@ =~= self.log@);
        assert(self.tools@.len() == 0 ==> self.round_content@ =~= self.content@);
        st
    }

    /// The request of the round was answered: with a stream to read, or with
    /// an error that ends the turn.
    pub fn stream_opened(&mut self, opened: Result<(), AppError>) -> (st: AgentStep)
        requires
            old(self).wf(),
            old(self).phase() is Opening,
        ensures
            final(self).wf(),
            final(self).model() == old(self).model(),
            final(self).allow_bash() == old(self).allow_bash(),
            final(self).router_requests() == old(self).router_requests(),
            final(self).requests() == old(self).requests(),
            final(self).prompt_stack() == old(self).prompt_stack(),
            final(self).log() == old(self).log() + st.events@,
            final(self).conversation() == old(self).conversation(),
            final(self).turn() == old(self).turn(),
            final(self).tools() == old(self).tools(),
            final(self).content() == old(self).content(),
            final(self).rounds() == old(self).rounds(),
            final(self).round_text() == old(self).round_text(),
            final(self).round_reasoning_text() == old(self).round_reasoning_text(),
            final(self).reasoning_text() == old(self).reasoning_text(),
            match opened {
                Ok(()) => {
                    &&& final(self).phase() is Streaming
                    &&& st.events@.len() == 0
                    &&& st.action is NextChunk
                },
                Err(e) => {
                    &&& final(self).phase() is Failed
                    &&& st.events@ == seq![AgentEvent::Error { message: st.events@[0]->Error_message }]
                    &&& st.events@[0]->Error_message@ == error_text(e)
                    &&& st.action == AgentAction::Fail(e)
                },
            },
    {
        match opened {
            Err(e) => {
                let st = self.fail(e);
                assert(st.events@ =~= seq![AgentEvent::Error { message: st.events@[0]->Error_message }]);
                st
            },
            Ok(()) => {
                self.phase = RunPhase::Streaming;
                let st = AgentStep { events: Vec::new(), action: AgentAction::NextChunk };
                assert(self.log@ + st.events@ =~= self.log@);
                st
            },
        }
    }

    /// One stream item arrived: a delta streams its answer and reasoning text
    /// and collects its tool-call fragments; an error ends the turn.
    pub fn on_chunk(&mut self, item: Result<ChatDelta, AppError>) -> (st: AgentStep)
        requires
            old(self).wf(),
            old(self).phase() is Streaming,
        ensures
            final(self).wf(),
            final(self).model() == old(self).model(),
            final(self).allow_bash() == old(self).allow_bash(),
            final(self).router_requests() == old(self).router_requests(),
            final(self).requests() == old(self).requests(),
            final(self).prompt_stack() == old(self).prompt_stack(),
            final(self).log() == old(self).log() + st.events@,
            final(self).conversation() == old(self).conversation(),
            final(self).turn() == old(self).turn(),
            final(self).tools() == old(self).tools(),
            final(self).rounds() == old(self).rounds(),
            match item {
                Ok(d) => {
                    &&& final(self).phase() is Streaming
                    &&& st.action is NextChunk
                    &&& st.events@ == delta_events(d)
                    &&& final(self).fragments() == absorb_seq(old(self).fragments(), d.tool_calls@)
                    &&& final(self).content() == old(self).content() + match d.content {
                        Some(c) => c@,
                        None => Seq::<char>::empty(),
                    }
                    &&& final(self).round_text() == old(self).round_text() + match d.content {
                        Some(c) => c@,
                        None => Seq::<char>::empty(),
                    }
                    &&& final(self).reasoning_text() == old(self).reasoning_text() + match d.reasoning {
                        Some(r) => r@,
                        None => Seq::<char>::empty(),
                    }
                    &&& final(self).round_reasoning_text() == old(self).round_reasoning_text()
                        + match d.reasoning {
                        Some(r) => r@,
                        None => Seq::<char>::empty(),
                    }
                },
                Err(e) => {
                    &&& final(self).phase() is Failed
                    &&& st.events@ == seq![AgentEvent::Error { message: st.events@[0]->Error_message }]
                    &&& st.events@[0]->Error_message@ == error_text(e)
                    &&& st.action == AgentAction::Fail(e)
                    &&& final(self).content() == old(self).content()
                },
            },
    {
        match item {
            Err(e) => {
                let st = self.fail(e);
                assert(st.events@ =~= seq![AgentEvent::Error { message: st.events@[0]->Error_message }]);
                st
            },
            Ok(d) => {
                let mut events: Vec<AgentEvent> = Vec::new();
                let ghost c0 = self.content@;
                let ghost r0 = self.reasoning@;
                match &d.content {
                    Some(c) => {
                        let v = to_chars(c.as_str());
                        append_chars(&mut self.content, &v);
                        append_chars(&mut self.round_content, &v);
                        events.push(AgentEvent::Stream { delta: c.clone(), reasoning: false });
                        assert(self.content@ == c0 + c@);
                    },
                    None => {
                        assert(self.content@ =~= c0 + Seq::<char>::empty());
                    },
                }
                assert(self.content@ == c0 + match d.content {
                    Some(c) => c@,
                    None => Seq::<char>::empty(),
                });
                match &d.reasoning {
                    Some(r) => {
                        let v = to_chars(r.as_str());
                        append_chars(&mut self.reasoning, &v);
                        append_chars(&mut self.round_reasoning, &v);
                        events.push(AgentEvent::Stream { delta: r.clone(), reasoning: true });
                        assert(self.reasoning@ == r0 + r@);
                    },
                    None => {
                        assert(self.reasoning@ =~= r0 + Seq::<char>::empty());
                    },
                }
                absorb_all(&mut self.acc, &d.tool_calls);
                proof {
                    assert(events@ =~= delta_events(d));
                    lemma_delta_events(d);
                    assert(streamed(events@, false) == match d.content {
                        Some(c) => c@,
                        None => Seq::<char>::empty(),
                    });
                    assert(streamed(events@, true) == match d.reasoning {
                        Some(r) => r@,
                        None => Seq::<char>::empty(),
                    });
                    lemma_log_add(self.log@, events@);
                    assert(self.content@ =~= c0 + streamed(events@, false));
                    assert(self.reasoning@ =~= r0 + streamed(events@, true));
                    self.log@ = self.log@ + events@;
                }
                AgentStep { events, action: AgentAction::NextChunk }
            },
        }
    }

    /// The stop flag was seen as a stream item arrived: the turn ends with
    /// what was answered so far, the item unread.
    pub fn on_stop_seen(&mut self) -> (st: AgentStep)
        requires
            old(self).wf(),
            old(self).phase() is Streaming,
        ensures
            final(self).wf(),
            final(self).model() == old(self).model(),
            final(self).allow_bash() == old(self).allow_bash(),
            final(self).router_requests() == old(self).router_requests(),
            final(self).requests() == old(self).requests(),
            final(self).prompt_stack() == old(self).prompt_stack(),
            final(self).phase() is Finished,
            !final(self).answered(),
            final(self).log() == old(self).log() + st.events@,
            final(self).conversation() == old(self).conversation(),
            final(self).turn() == old(self).turn(),
            final(self).tools() == old(self).tools(),
            final(self).content() == old(self).content(),
            st.events@ == seq![AgentEvent::Done { content: st.events@[0]->Done_content }],
            st.events@[0]->Done_content@ == old(self).content(),
            st.action matches AgentAction::Finish(o) && o.content@ == old(self).content()
                && o.reasoning@ == old(self).reasoning_text() && o.tools@ == old(self).tools() && msgs_view(o.api_messages@)
                == old(self).conversation() + old(self).turn(),
    {
        let st = self.conclude(false);
        assert(st.events@ =~= seq![AgentEvent::Done { content: st.events@[0]->Done_content }]);
        st
    }

    /// The stream of the round ended. Without complete tool calls the round's
    /// text is the final answer and the turn ends; otherwise the assistant
    /// message with its calls is recorded and the first call is run.
    pub fn on_stream_end(&mut self) -> (st: AgentStep)
        requires
            old(self).wf(),
            old(self).phase() is Streaming,
        ensures
            final(self).wf(),
            final(self).model() == old(self).model(),
            final(self).allow_bash() == old(self).allow_bash(),
            final(self).router_requests() == old(self).router_requests(),
            final(self).requests() == old(self).requests(),
            final(self).prompt_stack() == old(self).prompt_stack(),
            final(self).log() == old(self).log() + st.events@,
            final(self).conversation() == old(self).conversation(),
            final(self).tools() == old(self).tools(),
            final(self).content() == old(self).content(),
            final(self).rounds() == old(self).rounds(),
            final(self).reasoning_text() == old(self).reasoning_text(),
            final(self).phase() is Finished || final(self).phase() is RunningTool,
            final(self).phase() is Finished ==> {
                &&& forall|k: usize| #[trigger] old(self).fragments().contains_key(k) ==> !is_ready(
                    old(self).fragments()[k],
                )
                &&& final(self).answered()
                &&& st.events@ == seq![AgentEvent::Done { content: st.events@[0]->Done_content }]
                &&& st.events@[0]->Done_content@ == old(self).content()
                &&& final(self).turn().len() == old(self).turn().len() + 1
                &&& final(self).turn().last().role is Assistant
                &&& final(self).turn().last() == assistant_view(old(self).round_text())
                &&& st.action matches AgentAction::Finish(o) && o.content@ == old(self).content()
                    && o.reasoning@ == old(self).reasoning_text() && o.tools@ == old(self).tools() && msgs_view(o.api_messages@)
                    == old(self).conversation() + final(self).turn()
            },
            final(self).phase() is RunningTool ==> {
                &&& final(self).turn().len() == old(self).turn().len() + 1
                &&& final(self).turn().last().role is Assistant
                &&& final(self).turn().last().tool_calls.len() > 0
                &&& final(self).turn().last().content == old(self).round_text()
                &&& final(self).turn().last().reasoning_content == (if is_blank(
                    old(self).round_reasoning_text(),
                ) {
                    None
                } else {
                    Some(old(self).round_reasoning_text())
                })
                &&& final(self).round_calls() == final(self).turn().last().tool_calls
                &&& final(self).calls_done() == 0
                &&& exists|ks: Seq<usize>| lists_ready_calls(
                    old(self).fragments(),
                    final(self).turn().last().tool_calls,
                    ks,
                )
                &&& st.events@.len() == 1
                &&& st.action matches AgentAction::RunTool(c) && c
                    == final(self).turn().last().tool_calls[0]
                &&& is_running_event(st.events@[0], final(self).turn().last().tool_calls[0])
            },
    {
        let calls = self.acc.completed();
        if calls.len() == 0 {
            proof {
                assert forall|k: usize| #[trigger] self.acc@.contains_key(k) implies !is_ready(
                    self.acc@[k],
                ) by {
                    let ks = choose|ks: Seq<usize>| lists_ready_calls(self.acc@, calls@, ks);
                    if is_ready(self.acc@[k]) {
                        assert(ks.contains(k));
                    }
                }
            }
            let st = self.conclude(true);
            assert(st.events@ =~= seq![AgentEvent::Done { content: st.events@[0]->Done_content }]);
            return st;
        }
        let ghost ks = choose|ks: Seq<usize>| lists_ready_calls(self.acc@, calls@, ks);
        let text = from_chars(&self.round_content);
        let reasoning = from_chars(&self.round_reasoning);
        let m = msg_assistant_with_tools(text.as_str(), reasoning.as_str(), &calls);
        let ghost before = self.messages@;
        self.messages.push(m);
        proof {
            lemma_msgs_view_push(before, m);
            assert(self.messages@ =~= before.push(m));
            let t = self.turn@.push(m@);
            assert(no_system(t)) by {
                assert forall|i: int| 0 <= i < t.len() implies !(#[trigger] t[i].role is System) by {
                    if i < t.len() - 1 {
                        assert(t[i] == self.turn@[i]);
                    }
                }
            }
            assert(self.prefix@ + self.conversation@ + t =~= (self.prefix@ + self.conversation@
                + self.turn@).push(m@));
            self.turn@ = t;
        }
        let first = calls[0].duplicate();
        let ev = running_tool_event(&first);
        self.calls = calls;
        self.next_call = 0;
        self.phase = RunPhase::RunningTool;
        proof {
            self.round_tools_start@ = self.tools@.len();
        }
        let mut events: Vec<AgentEvent> = Vec::new();
        events.push(ev);
        proof {
            lemma_log_add(self.log@, events@);
            reveal_with_fuel(streamed, 2);
            reveal_with_fuel(count_done, 2);
            reveal_with_fuel(count_error, 2);
            assert(events@.drop_last() =~= Seq::<AgentEvent>::empty());
            self.log@ = self.log@ + events@;
        }
        assert(lists_ready_calls(self.acc@, self.turn@.last().tool_calls, ks));
        assert(lists_ready_calls(old(self).fragments(), self.turn().last().tool_calls, ks));
        AgentStep { events, action: AgentAction::RunTool(first) }
    }

    /// The current tool call finished: its record and result are kept, then
    /// the next call runs, or the next round begins.
    pub fn on_tool_finished(&mut self, result: ToolResult) -> (st: AgentStep)
        requires
            old(self).wf(),
            old(self).phase() is RunningTool,
        ensures
            final(self).wf(),
            final(self).model() == old(self).model(),
            final(self).allow_bash() == old(self).allow_bash(),
            final(self).router_requests() == old(self).router_requests(),
            final(self).requests() == old(self).requests(),
            final(self).prompt_stack() == old(self).prompt_stack(),
            final(self).log() == old(self).log() + st.events@,
            final(self).conversation() == old(self).conversation(),
            final(self).content() == old(self).content(),
            final(self).reasoning_text() == old(self).reasoning_text(),
            old(self).calls_done() < old(self).round_calls().len(),
            final(self).round_calls() == old(self).round_calls(),
            final(self).calls_done() == old(self).calls_done() + 1,
            final(self).phase() is RunningTool <==> final(self).calls_done() < final(self).round_calls().len(),
            final(self).tools().last().id == old(self).current_call().id,
            final(self).tools().last().name == old(self).current_call().name,
            final(self).tools().last().args == old(self).current_call().arguments,
            final(self).tools().len() == old(self).tools().len() + 1,
            final(self).tools().drop_last() == old(self).tools(),
            final(self).tools().last().status@ == (if result.ok {
                "done"@
            } else {
                "error"@
            }),
            final(self).tools().last().output == Some(result.output),
            final(self).turn().len() == old(self).turn().len() + 1,
            final(self).turn().last().role is Tool,
            final(self).turn().last().content == payload_text(result),
            final(self).turn().last().tool_call_id == Some(final(self).tools().last().id@),
            st.events@.len() >= 1,
            st.events@[0] == (AgentEvent::Tool {
                id: final(self).tools().last().id,
                name: final(self).tools().last().name,
                args: final(self).tools().last().args,
                status: final(self).tools().last().status,
                output: Some(result.output),
            }),
            final(self).phase() is RunningTool || final(self).phase() is AwaitRound,
            final(self).phase() is AwaitRound ==> st.events@.len() == 1 && st.action is CheckStop
                && final(self).rounds() == old(self).rounds() + 1,
            final(self).phase() is RunningTool ==> st.events@.len() == 2 && (st.action matches AgentAction::RunTool(c)
                && is_running_event(st.events@[1], c) && c == final(self).current_call()) && final(self).rounds() == old(self).rounds(),
    {
        let nc = self.next_call;
        assert(nc < self.calls@.len());
        let call = self.calls[nc].duplicate();
        let status = if result.ok {
            owned("done")
        } else {
            owned("error")
        };
        let record = StoredTool {
            id: call.id.clone(),
            name: call.name.clone(),
            args: call.arguments.clone(),
            status: status.clone(),
            output: Some(result.output.clone()),
        };
        let finished_ev = AgentEvent::Tool {
            id: call.id.clone(),
            name: call.name.clone(),
            args: call.arguments.clone(),
            status,
            output: Some(result.output.clone()),
        };
        self.tools.push(record);
        let payload = result.to_payload_json();
        let m = msg_tool_result(call.id.as_str(), payload.as_str());
        let ghost before = self.messages@;
        self.messages.push(m);
        proof {
            lemma_msgs_view_push(before, m);
            assert(self.messages@ =~= before.push(m));
            let t = self.turn@.push(m@);
            assert(no_system(t)) by {
                assert forall|i: int| 0 <= i < t.len() implies !(#[trigger] t[i].role is System) by {
                    if i < t.len() - 1 {
                        assert(t[i] == self.turn@[i]);
                    }
                }
            }
            assert(self.prefix@ + self.conversation@ + t =~= (self.prefix@ + self.conversation@
                + self.turn@).push(m@));
            self.turn@ = t;
        }
        let mut events: Vec<AgentEvent> = Vec::new();
        events.push(finished_ev);
        let total = self.calls.len();
        assert(nc < total);
        self.next_call = nc + 1;
        if self.next_call < self.calls.len() {
            let next = self.calls[self.next_call].duplicate();
            events.push(running_tool_event(&next));
            proof {
                lemma_log_add(self.log@, events@);
                reveal_with_fuel(streamed, 3);
                reveal_with_fuel(count_done, 3);
                reveal_with_fuel(count_error, 3);
                assert(events@.drop_last().drop_last() =~= Seq::<AgentEvent>::empty());
                self.log@ = self.log@ + events@;
            }
            AgentStep { events, action: AgentAction::RunTool(next) }
        } else {
            self.round = self.round + 1;
            self.phase = RunPhase::AwaitRound;
            proof {
                lemma_log_add(self.log@, events@);
                reveal_with_fuel(streamed, 2);
                reveal_with_fuel(count_done, 2);
                reveal_with_fuel(count_error, 2);
                assert(events@.drop_last() =~= Seq::<AgentEvent>::empty());
                self.log@ = self.log@ + events@;
            }
            AgentStep { events, action: AgentAction::CheckStop }
        }
    }

    /// Ends the turn with a `Done` event; with `answer`, the round's text is
    /// first recorded as the final assistant message.
    fn conclude(&mut self, answer: bool) -> (st: AgentStep)
        requires
            old(self).wf(),
            old(self).phase is AwaitRound || old(self).phase is Streaming,
            answer ==> old(self).phase is Streaming,
        ensures
            final(self).round == old(self).round,
            final(self).max_rounds == old(self).max_rounds,
            final(self).with_tools == old(self).with_tools,
            final(self).reasoning@ == old(self).reasoning@,
            final(self).round_content@ == old(self).round_content@,
            final(self).round_reasoning@ == old(self).round_reasoning@,
            final(self).wf(),
            final(self).model == old(self).model,
            final(self).allow_bash == old(self).allow_bash,
            final(self).router_asked == old(self).router_asked,
            final(self).requests@ == old(self).requests@,
            final(self).prefix@ == old(self).prefix@,
            final(self).phase is Finished,
            final(self).answered == answer,
            final(self).log@ == old(self).log@ + st.events@,
            st.events@.len() == 1,
            st.events@[0] == (AgentEvent::Done { content: st.events@[0]->Done_content }),
            st.events@[0]->Done_content@ == old(self).content@,
            final(self).turn@ == (if answer {
                old(self).turn@.push(assistant_view(old(self).round_content@))
            } else {
                old(self).turn@
            }),
            final(self).conversation@ == old(self).conversation@,
            final(self).content@ == old(self).content@,
            final(self).tools@ == old(self).tools@,
            final(self).round == old(self).round,
            st.action matches AgentAction::Finish(o) && o.content@ == final(self).content@
                && o.reasoning@ == final(self).reasoning@ && o.tools@ == final(self).tools@
                && msgs_view(o.api_messages@) == final(self).conversation@ + final(self).turn@,
    {
        if answer {
            let text = from_chars(&self.round_content);
            let m = msg_assistant(text.as_str());
            let ghost before = self.messages@;
            self.messages.push(m);
            proof {
                lemma_msgs_view_push(before, m);
                assert(self.messages@ =~= before.push(m));
                assert(m@ =~= assistant_view(self.round_content@)) by {
                    assert(m.tool_calls@ =~= Seq::<CompletedToolCall>::empty());
                }
                let t = self.turn@.push(m@);
                assert(no_system(t)) by {
                    assert forall|i: int| 0 <= i < t.len() implies !(#[trigger] t[i].role is System) by {
                        if i < t.len() - 1 {
                            assert(t[i] == self.turn@[i]);
                        }
                    }
                }
                assert(self.prefix@ + self.conversation@ + t =~= (self.prefix@ + self.conversation@
                    + self.turn@).push(m@));
                if self.tools@.len() == 0 {
                    assert(t =~= seq![assistant_view(self.content@)]);
                }
                self.turn@ = t;
            }
            self.answered = true;
        }
        let done = AgentEvent::Done { content: from_chars(&self.content) };
        let mut events: Vec<AgentEvent> = Vec::new();
        events.push(done);
        proof {
            lemma_log_add(self.log@, events@);
            reveal_with_fuel(streamed, 2);
            reveal_with_fuel(count_done, 2);
            reveal_with_fuel(count_error, 2);
            assert(events@.drop_last() =~= Seq::<AgentEvent>::empty());
            self.log@ = self.log@ + events@;
        }
        self.phase = RunPhase::Finished;
        let out = self.output();
        AgentStep { events, action: AgentAction::Finish(out) }
    }

    /// Ends the turn with an `Error` event for `e`.
    fn fail(&mut self, e: AppError) -> (st: AgentStep)
        requires
            old(self).wf(),
            !old(self).is_over(),
        ensures
            final(self).round == old(self).round,
            final(self).max_rounds == old(self).max_rounds,
            final(self).with_tools == old(self).with_tools,
            final(self).reasoning@ == old(self).reasoning@,
            final(self).round_content@ == old(self).round_content@,
            final(self).round_reasoning@ == old(self).round_reasoning@,
            final(self).wf(),
            final(self).model == old(self).model,
            final(self).allow_bash == old(self).allow_bash,
            final(self).router_asked == old(self).router_asked,
            final(self).requests@ == old(self).requests@,
            final(self).prefix@ == old(self).prefix@,
            final(self).phase is Failed,
            final(self).log@ == old(self).log@ + st.events@,
            st.events@.len() == 1,
            st.events@[0] == (AgentEvent::Error { message: st.events@[0]->Error_message }),
            st.events@[0]->Error_message@ == error_text(e),
            st.action == AgentAction::Fail(e),
            final(self).turn@ == old(self).turn@,
            final(self).conversation@ == old(self).conversation@,
            final(self).content@ == old(self).content@,
            final(self).tools@ == old(self).tools@,
    {
        let ev = AgentEvent::Error { message: e.message() };
        let mut events: Vec<AgentEvent> = Vec::new();
        events.push(ev);
        proof {
            lemma_log_add(self.log@, events@);
            reveal_with_fuel(streamed, 2);
            reveal_with_fuel(count_done, 2);
            reveal_with_fuel(count_error, 2);
            assert(events@.drop_last() =~= Seq::<AgentEvent>::empty());
            self.log@ = self.log@ + events@;
        }
        self.phase = RunPhase::Failed;
        AgentStep { events, action: AgentAction::Fail(e) }
    }

    /// The output the turn has produced so far.
    fn output(&self) -> (o: AgentOutput)
        requires
            self.wf(),
            !(self.phase is Preparing || self.phase is Failed),
        ensures
            o.content@ == self.content@,
            o.reasoning@ == self.reasoning@,
            o.tools@ == self.tools@,
            msgs_view(o.api_messages@) == self.conversation@ + self.turn@,
    {
        let api = conversation_only(&self.messages);
        proof {
            let p = self.prefix@;
            let rest = self.conversation@ + self.turn@;
            assert(p + self.conversation@ + self.turn@ =~= p + rest);
            lemma_without_system_add(p, rest);
            assert(p.drop_last().drop_last() =~= Seq::<MessageView>::empty());
            assert(without_system(p) =~= Seq::<MessageView>::empty()) by {
                reveal_with_fuel(without_system, 3);
            }
            assert(no_system(rest)) by {
                assert forall|i: int| 0 <= i < rest.len() implies !(#[trigger] rest[i].role is System) by {
                    if i < self.conversation@.len() {
                        assert(rest[i] == self.conversation@[i]);
                    } else {
                        assert(rest[i] == self.turn@[i - self.conversation@.len()]);
                    }
                }
            }
            lemma_without_system_props(rest);
            assert(Seq::<MessageView>::empty() + rest =~= rest);
        }
        AgentOutput {
            content: from_chars(&self.content),
            reasoning: from_chars(&self.reasoning),
            tools: dup_tools(&self.tools),
            api_messages: api,
        }
    }
}

/// `e` announces that the tool call `c` starts running.
pub open spec fn is_running_event(e: AgentEvent, c: CompletedToolCall) -> bool {
    e matches AgentEvent::Tool { id, name, args, status, output } && id == c.id && name == c.name
        && args == c.arguments && status@ == "running"@ && output is None
}

/// The event announcing that a tool call starts running.
pub fn running_tool_event(c: &CompletedToolCall) -> (e: AgentEvent)
    ensures
        is_running_event(e, *c),
{
    AgentEvent::Tool {
        id: c.id.clone(),
        name: c.name.clone(),
        args: c.arguments.clone(),
        status: owned("running"),
        output: None,
    }
}

/// The stream events of a delta: its answer text, then its reasoning text,
/// each when present.
pub open spec fn delta_events(d: ChatDelta) -> Seq<AgentEvent> {
    let a = match d.content {
        Some(c) => seq![AgentEvent::Stream { delta: c, reasoning: false }],
        None => seq![],
    };
    match d.reasoning {
        Some(r) => a.push(AgentEvent::Stream { delta: r, reasoning: true }),
        None => a,
    }
}

/// What the stream events of a delta stream, and that they end nothing.
pub proof fn lemma_delta_events(d: ChatDelta)
    ensures
        streamed(delta_events(d), false) == match d.content {
            Some(c) => c@,
            None => Seq::<char>::empty(),
        },
        streamed(delta_events(d), true) == match d.reasoning {
            Some(r) => r@,
            None => Seq::<char>::empty(),
        },
        count_done(delta_events(d)) == 0,
        count_error(delta_events(d)) == 0,
{
    reveal_with_fuel(streamed, 3);
    reveal_with_fuel(count_done, 3);
    reveal_with_fuel(count_error, 3);
    let a = match d.content {
        Some(c) => seq![AgentEvent::Stream { delta: c, reasoning: false }],
        None => seq![],
    };
    if a.len() == 1 {
        assert(a.drop_last() =~= Seq::<AgentEvent>::empty());
    }
    match d.reasoning {
        Some(r) => {
            assert(a.push(AgentEvent::Stream { delta: r, reasoning: true }).drop_last() =~= a);
        },
        None => {},
    }
    assert(Seq::<char>::empty() + Seq::<char>::empty() =~= Seq::<char>::empty());
    match d.content {
        Some(c) => {
            assert(Seq::<char>::empty() + c@ =~= c@);
        },
        None => {},
    }
    match d.reasoning {
        Some(r) => {
            assert(Seq::<char>::empty() + r@ =~= r@);
        },
        None => {},
    }
}

/// Takes in the tool-call fragments of one delta, in order.
fn absorb_all(acc: &mut ToolCallAccumulator, ds: &Vec<ToolCallDelta>)
    requires
        old(acc).wf(),
    ensures
        final(acc).wf(),
        final(acc)@ == absorb_seq(old(acc)@, ds@),
{
    let mut j: usize = 0;
    while j < ds.len()
        invariant
            j <= ds.len(),
            acc.wf(),
            acc@ == absorb_seq(old(acc)@, ds@.subrange(0, j as int)),
        decreases ds.len() - j,
    {
        acc.absorb(&ds[j]);
        assert(ds@.subrange(0, j + 1).drop_last() =~= ds@.subrange(0, j as int));
        j += 1;
    }
    assert(ds@.subrange(0, ds.len() as int) =~= ds@);
}

/// The calls after a sequence of fragments, taken in order.
pub open spec fn absorb_seq(m: Map<usize, SlotView>, ds: Seq<ToolCallDelta>) -> Map<usize, SlotView>
    decreases ds.len(),
{
    if ds.len() == 0 {
        m
    } else {
        absorb_map(absorb_seq(m, ds.drop_last()), ds.last())
    }
}

/// A copy of a tool record.
pub fn dup_tool(t: &StoredTool) -> (r: StoredTool)
    ensures
        r == *t,
{
    StoredTool {
        id: t.id.clone(),
        name: t.name.clone(),
        args: t.args.clone(),
        status: t.status.clone(),
        output: crate::deepseek::dup_opt(&t.output),
    }
}

/// A copy of a list of tool records.
pub fn dup_tools(v: &Vec<StoredTool>) -> (r: Vec<StoredTool>)
    ensures
        r@ == v@,
{
    let mut r: Vec<StoredTool> = Vec::new();
    let mut i: usize = 0;
    while i < v.len()
        invariant
            i <= v.len(),
            r@ == v@.subrange(0, i as int),
        decreases v.len() - i,
    {
        r.push(dup_tool(&v[i]));
        i += 1;
        assert(r@ =~= v@.subrange(0, i as int));
    }
    assert(v@.subrange(0, v.len() as int) =~= v@);
    r
}

// ---------------------------------------------------------------------------
// Laws of a turn
// ---------------------------------------------------------------------------

/// A turn that is over has emitted exactly one outcome event: a `Done` when
/// it finished, an `Error` when it failed, and that event was its last.
pub proof fn lemma_one_outcome_event(run: &AgentRun)
    requires
        run.wf(),
        run.is_over(),
    ensures
        count_done(run.log()) + count_error(run.log()) == 1,
        run.phase() is Finished <==> count_done(run.log()) == 1,
        run.phase() is Failed <==> count_error(run.log()) == 1,
        run.phase() is Finished ==> run.log().last() is Done,
        run.phase() is Failed ==> run.log().last() is Error,
{
}

/// Until a turn is over it has emitted neither `Done` nor `Error`.
pub proof fn lemma_no_outcome_before_end(run: &AgentRun)
    requires
        run.wf(),
        !run.is_over(),
    ensures
        count_done(run.log()) == 0,
        count_error(run.log()) == 0,
{
}

/// The answer a finished turn reports in its `Done` event is exactly the
/// answer text it streamed before.
pub proof fn lemma_done_reports_streamed_text(run: &AgentRun)
    requires
        run.wf(),
        run.phase() is Finished,
    ensures
        run.log().last() matches AgentEvent::Done { content } && content@ == streamed(
            run.log().drop_last(),
            false,
        ),
        run.content() == streamed(run.log(), false),
{
    let log = run.log();
    assert(log.drop_last().push(log.last()) =~= log);
}

/// The reasoning a turn has gathered (and reports when it ends) is exactly
/// the reasoning it streamed.
pub proof fn lemma_reasoning_is_streamed(run: &AgentRun)
    requires
        run.wf(),
    ensures
        run.reasoning_text() == streamed(run.log(), true),
{
}

/// The conversation a turn keeps (the carried-over one and what the turn
/// added) holds no system prompt.
pub proof fn lemma_kept_conversation_has_no_system(run: &AgentRun)
    requires
        run.wf(),
    ensures
        no_system(run.conversation() + run.turn()),
{
    let c = run.conversation() + run.turn();
    assert forall|i: int| 0 <= i < c.len() implies !(#[trigger] c[i].role is System) by {
        if i < run.conversation().len() {
            assert(c[i] == run.conversation()[i]);
        } else {
            assert(c[i] == run.turn()[i - run.conversation().len()]);
        }
    }
}

/// A turn that ended with an answer and ran no tool added exactly one
/// message after the user message: the assistant's answer.
pub proof fn lemma_plain_turn_adds_one_answer(run: &AgentRun)
    requires
        run.wf(),
        run.phase() is Finished,
        run.answered(),
        run.tools().len() == 0,
    ensures
        run.turn() == seq![assistant_view(run.content())],
{
}

/// A turn stopped or cut off before any answer or tool added nothing after
/// the user message.
pub proof fn lemma_unanswered_turn_adds_nothing(run: &AgentRun)
    requires
        run.wf(),
        run.phase() is Finished,
        !run.answered(),
        run.tools().len() == 0,
    ensures
        run.turn().len() == 0,
{
}

/// Before the first round, a turn has streamed no answer text.
pub proof fn lemma_nothing_streamed_before_first_round(run: &AgentRun)
    requires
        run.wf(),
        run.phase() is AwaitRound,
        run.tools().len() == 0,
    ensures
        run.content().len() == 0,
{
}

/// Requests stay within the round limit: a turn that is sending a request,
/// reading its stream or running its tools is in a round below the limit,
/// so no more than `max_tool_rounds` requests are made.
pub proof fn lemma_rounds_within_limit(run: &AgentRun)
    requires
        run.wf(),
        run.phase() is Opening || run.phase() is Streaming || run.phase() is RunningTool,
    ensures
        run.rounds() < run.max_rounds(),
{
}

/// A turn sends at most `max_tool_rounds` requests: every request opens a
/// round below the limit, and a round ends before the next one opens.
pub proof fn lemma_requests_bounded(run: &AgentRun)
    requires
        run.wf(),
    ensures
        run.requests() <= run.max_rounds(),
        (run.phase() is Preparing || run.phase() is AwaitRound) ==> run.requests() == run.rounds(),
{
}

/// Every request of a turn sends the two system prompts, then the carried
/// conversation and the user message, then what this turn added so far.
pub proof fn lemma_request_messages(run: &AgentRun)
    requires
        run.wf(),
        !(run.phase() is Preparing || run.phase() is Failed),
    ensures
        run.stack() == run.prompt_stack() + run.conversation() + run.turn(),
        run.prompt_stack().len() == 2,
        run.prompt_stack()[0].role is System,
        run.prompt_stack()[1].role is System,
{
}

/// While the calls of a round run, each finished call has exactly one tool
/// record, in call order, carrying the call's id, name and arguments.
pub proof fn lemma_round_tools_recorded(run: &AgentRun)
    requires
        run.wf(),
        run.phase() is RunningTool,
    ensures
        run.tools().len() == run.round_tools_start() + run.calls_done(),
        forall|k: int|
            0 <= k < run.calls_done() ==> {
                &&& (#[trigger] run.tools()[run.round_tools_start() + k]).id == run.round_calls()[k].id
                &&& run.tools()[run.round_tools_start() + k].name == run.round_calls()[k].name
                &&& run.tools()[run.round_tools_start() + k].args == run.round_calls()[k].arguments
            },
{
}

/// Two turns in a row: a turn continuing a conversation without system
/// prompts that answers without tools keeps that conversation, the user
/// message and the answer, so the conversation grows by exactly two messages.
pub proof fn lemma_continuation_adds_two(h: Seq<MessageView>, user: Seq<char>, run: &AgentRun)
    requires
        no_system(h),
        run.wf(),
        run.conversation() == without_system(h).push(user_view(user)),
        run.phase() is Finished,
        run.answered(),
        run.tools().len() == 0,
    ensures
        run.conversation() + run.turn() == h.push(user_view(user)).push(assistant_view(run.content())),
        (run.conversation() + run.turn()).len() == h.len() + 2,
{
    lemma_without_system_props(h);
    lemma_plain_turn_adds_one_answer(run);
    assert(run.conversation() + run.turn() =~= h.push(user_view(user)).push(assistant_view(run.content())));
}

/// A turn asks the skill router at most once.
pub proof fn lemma_one_router_request(run: &AgentRun)
    ensures
        run.router_requests() <= 1,
{
}

} // verus!
