//! The chat-completions wire model: conversation messages, streamed deltas,
//! and the folding of one decoded stream chunk into a delta.
use vstd::prelude::*;
use crate::text::{
    append_str, chars_eq, from_chars, is_blank, owned, str_is_blank, to_chars, trim, trim_str,
};

verus! {

/// The author of a conversation message.
#[derive(Debug, Clone, PartialEq, Eq)]
pub enum Role {
    System,
    User,
    Assistant,
    Tool,
    /// A role this application does not produce, kept as written.
    Other(String),
}

/// A tool call the model asked for, complete with its JSON argument text.
#[derive(Debug, Clone, PartialEq, Eq)]
pub struct CompletedToolCall {
    pub id: String,
    pub name: String,
    pub arguments: String,
}

/// One message of a conversation in the chat-completions wire format.
#[derive(Debug, Clone, PartialEq, Eq)]
pub struct ApiMessage {
    pub role: Role,
    pub content: String,
    /// The model's chain of thought, echoed back on assistant messages that call tools.
    pub reasoning_content: Option<String>,
    /// The tool calls of an assistant message.
    pub tool_calls: Vec<CompletedToolCall>,
    /// The call a tool message answers.
    pub tool_call_id: Option<String>,
}

/// The mathematical content of a message: its text fields as character
/// sequences and its tool calls as a sequence.
pub struct MessageView {
    pub role: Role,
    pub content: Seq<char>,
    pub reasoning_content: Option<Seq<char>>,
    pub tool_calls: Seq<CompletedToolCall>,
    pub tool_call_id: Option<Seq<char>>,
}

/// The characters of an optional string.
pub open spec fn opt_view(o: Option<String>) -> Option<Seq<char>> {
    match o {
        Some(s) => Some(s@),
        None => None,
    }
}

impl View for ApiMessage {
    type V = MessageView;

    open spec fn view(&self) -> MessageView {
        MessageView {
            role: self.role,
            content: self.content@,
            reasoning_content: opt_view(self.reasoning_content),
            tool_calls: self.tool_calls@,
            tool_call_id: opt_view(self.tool_call_id),
        }
    }
}

/// The views of a sequence of messages.
pub open spec fn msgs_view(s: Seq<ApiMessage>) -> Seq<MessageView> {
    s.map_values(|m: ApiMessage| m@)
}

/// A single streamed delta from the chat completions API.
#[derive(Debug, Clone, Default)]
pub struct ChatDelta {
    pub content: Option<String>,
    pub reasoning: Option<String>,
    pub tool_calls: Vec<ToolCallDelta>,
    pub finish: Option<String>,
}

/// A fragment of a tool call, identified by its position `index`.
#[derive(Debug, Clone, Default)]
pub struct ToolCallDelta {
    pub index: usize,
    pub id: Option<String>,
    pub name: Option<String>,
    pub arguments: Option<String>,
}

/// One decoded `data:` payload of the stream.
#[derive(Debug, Clone, Default)]
pub struct SseChunk {
    pub choices: Vec<SseChoice>,
}

/// One choice of a stream chunk.
#[derive(Debug, Clone, Default)]
pub struct SseChoice {
    pub delta: SseDelta,
    pub finish_reason: Option<String>,
}

/// The delta of one choice.
#[derive(Debug, Clone, Default)]
pub struct SseDelta {
    pub content: Option<String>,
    pub reasoning_content: Option<String>,
    pub tool_calls: Vec<SseToolCall>,
}

/// A tool-call fragment as the wire carries it.
#[derive(Debug, Clone, Default)]
pub struct SseToolCall {
    pub index: usize,
    pub id: Option<String>,
    pub function: SseFunction,
}

/// The function part of a tool-call fragment.
#[derive(Debug, Clone, Default)]
pub struct SseFunction {
    pub name: Option<String>,
    pub arguments: Option<String>,
}

// ---------------------------------------------------------------------------
// Copies
// ---------------------------------------------------------------------------

/// A copy of an optional string.
pub fn dup_opt(o: &Option<String>) -> (r: Option<String>)
    ensures
        r == *o,
{
    match o {
        Some(s) => Some(s.clone()),
        None => None,
    }
}

impl Role {
    /// A copy of this role.
    pub fn duplicate(&self) -> (r: Role)
        ensures
            r == *self,
    {
        match self {
            Role::System => Role::System,
            Role::User => Role::User,
            Role::Assistant => Role::Assistant,
            Role::Tool => Role::Tool,
            Role::Other(s) => Role::Other(s.clone()),
        }
    }
}

impl CompletedToolCall {
    /// A copy of this call.
    pub fn duplicate(&self) -> (r: CompletedToolCall)
        ensures
            r == *self,
    {
        CompletedToolCall {
            id: self.id.clone(),
            name: self.name.clone(),
            arguments: self.arguments.clone(),
        }
    }
}

/// A copy of a list of tool calls.
pub fn dup_calls(v: &Vec<CompletedToolCall>) -> (r: Vec<CompletedToolCall>)
    ensures
        r@ == v@,
{
    let mut r: Vec<CompletedToolCall> = Vec::new();
    let mut i: usize = 0;
    while i < v.len()
        invariant
            i <= v.len(),
            r@ == v@.subrange(0, i as int),
        decreases v.len() - i,
    {
        r.push(v[i].duplicate());
        i += 1;
        assert(r@ =~= v@.subrange(0, i as int));
    }
    assert(v@.subrange(0, v.len() as int) =~= v@);
    r
}

impl ApiMessage {
    /// A copy of this message.
    pub fn duplicate(&self) -> (r: ApiMessage)
        ensures
            r@ == self@,
    {
        let calls = dup_calls(&self.tool_calls);
        ApiMessage {
            role: self.role.duplicate(),
            content: self.content.clone(),
            reasoning_content: dup_opt(&self.reasoning_content),
            tool_calls: calls,
            tool_call_id: dup_opt(&self.tool_call_id),
        }
    }

    /// Whether this is a system message.
    pub fn is_system(&self) -> (r: bool)
        ensures
            r == (self.role is System),
    {
        match self.role {
            Role::System => true,
            _ => false,
        }
    }
}

/// Viewing commutes with appending.
pub proof fn lemma_msgs_view_push(s: Seq<ApiMessage>, x: ApiMessage)
    ensures
        msgs_view(s.push(x)) == msgs_view(s).push(x@),
{
    assert(msgs_view(s.push(x)) =~= msgs_view(s).push(x@));
}

/// A copy of a list of messages.
pub fn dup_messages(v: &Vec<ApiMessage>) -> (r: Vec<ApiMessage>)
    ensures
        msgs_view(r@) == msgs_view(v@),
{
    let mut r: Vec<ApiMessage> = Vec::new();
    let mut i: usize = 0;
    while i < v.len()
        invariant
            i <= v.len(),
            r@.len() == i,
            msgs_view(r@) == msgs_view(v@.subrange(0, i as int)),
        decreases v.len() - i,
    {
        let ghost before = r@;
        r.push(v[i].duplicate());
        proof {
            lemma_msgs_view_push(before, r@[i as int]);
            assert(v@.subrange(0, i + 1) =~= v@.subrange(0, i as int).push(v@[i as int]));
            lemma_msgs_view_push(v@.subrange(0, i as int), v@[i as int]);
            assert(r@ =~= before.push(r@[i as int]));
        }
        i += 1;
    }
    assert(v@.subrange(0, v.len() as int) =~= v@);
    r
}

// ---------------------------------------------------------------------------
// Message builders
// ---------------------------------------------------------------------------

/// A message of the given role carrying only text.
pub open spec fn plain_message(role: Role, content: Seq<char>, m: ApiMessage) -> bool {
    &&& m.role == role
    &&& m.content@ == content
    &&& m.reasoning_content is None
    &&& m.tool_calls@.len() == 0
    &&& m.tool_call_id is None
}

/// A system message.
pub fn msg_system(content: &str) -> (m: ApiMessage)
    ensures
        plain_message(Role::System, content@, m),
{
    ApiMessage {
        role: Role::System,
        content: owned(content),
        reasoning_content: None,
        tool_calls: Vec::new(),
        tool_call_id: None,
    }
}

/// A user message.
pub fn msg_user(content: &str) -> (m: ApiMessage)
    ensures
        plain_message(Role::User, content@, m),
{
    ApiMessage {
        role: Role::User,
        content: owned(content),
        reasoning_content: None,
        tool_calls: Vec::new(),
        tool_call_id: None,
    }
}

/// An assistant message without tool calls.
pub fn msg_assistant(content: &str) -> (m: ApiMessage)
    ensures
        plain_message(Role::Assistant, content@, m),
{
    ApiMessage {
        role: Role::Assistant,
        content: owned(content),
        reasoning_content: None,
        tool_calls: Vec::new(),
        tool_call_id: None,
    }
}

/// An assistant message that calls tools. The reasoning is echoed back
/// unless it is blank: the API rejects a follow-up request on a tool
/// conversation that drops it.
pub fn msg_assistant_with_tools(content: &str, reasoning: &str, calls: &[CompletedToolCall]) -> (m:
    ApiMessage)
    ensures
        m.role == Role::Assistant,
        m.content@ == content@,
        m.tool_calls@ == calls@,
        m.tool_call_id is None,
        is_blank(reasoning@) ==> m.reasoning_content is None,
        !is_blank(reasoning@) ==> (m.reasoning_content matches Some(r) && r@ == reasoning@),
{
    let mut tc: Vec<CompletedToolCall> = Vec::new();
    let mut i: usize = 0;
    while i < calls.len()
        invariant
            i <= calls.len(),
            tc@ == calls@.subrange(0, i as int),
        decreases calls.len() - i,
    {
        tc.push(calls[i].duplicate());
        i += 1;
        assert(tc@ =~= calls@.subrange(0, i as int));
    }
    assert(calls@.subrange(0, calls.len() as int) =~= calls@);
    let reasoning_content = if str_is_blank(reasoning) {
        None
    } else {
        Some(owned(reasoning))
    };
    ApiMessage {
        role: Role::Assistant,
        content: owned(content),
        reasoning_content,
        tool_calls: tc,
        tool_call_id: None,
    }
}

/// A tool result message answering the call `tool_call_id`.
pub fn msg_tool_result(tool_call_id: &str, content: &str) -> (m: ApiMessage)
    ensures
        m.role == Role::Tool,
        m.content@ == content@,
        m.reasoning_content is None,
        m.tool_calls@.len() == 0,
        m.tool_call_id matches Some(id) && id@ == tool_call_id@,
{
    ApiMessage {
        role: Role::Tool,
        content: owned(content),
        reasoning_content: None,
        tool_calls: Vec::new(),
        tool_call_id: Some(owned(tool_call_id)),
    }
}

// ---------------------------------------------------------------------------
// Stream chunks
// ---------------------------------------------------------------------------

/// The last `Some` of a sequence of options, or `None` when there is none.
pub open spec fn last_some(s: Seq<Option<String>>) -> Option<String>
    decreases s.len(),
{
    if s.len() == 0 {
        None
    } else if s.last() is Some {
        s.last()
    } else {
        last_some(s.drop_last())
    }
}

/// A wire tool-call fragment as a delta.
pub open spec fn tool_delta_of(t: SseToolCall) -> ToolCallDelta {
    ToolCallDelta {
        index: t.index,
        id: t.id,
        name: t.function.name,
        arguments: t.function.arguments,
    }
}

/// The content of the delta a chunk stands for: over all choices in order,
/// the last one given.
pub open spec fn chunk_content(c: SseChunk) -> Option<String> {
    last_some(c.choices@.map_values(|x: SseChoice| x.delta.content))
}

/// The reasoning of the delta a chunk stands for: the last one given.
pub open spec fn chunk_reasoning(c: SseChunk) -> Option<String> {
    last_some(c.choices@.map_values(|x: SseChoice| x.delta.reasoning_content))
}

/// The finish reason of the delta a chunk stands for: the last one given.
pub open spec fn chunk_finish(c: SseChunk) -> Option<String> {
    last_some(c.choices@.map_values(|x: SseChoice| x.finish_reason))
}

/// The tool calls of the delta a chunk stands for: those of the last choice.
pub open spec fn chunk_tool_calls(c: SseChunk) -> Seq<ToolCallDelta> {
    if c.choices@.len() == 0 {
        seq![]
    } else {
        c.choices@.last().delta.tool_calls@.map_values(|t: SseToolCall| tool_delta_of(t))
    }
}

proof fn lemma_last_some_push(s: Seq<Option<String>>, x: Option<String>)
    ensures
        last_some(s.push(x)) == (if x is Some {
            x
        } else {
            last_some(s)
        }),
{
    assert(s.push(x).drop_last() =~= s);
}

/// The delta a decoded chunk stands for.
pub fn delta_from_chunk(chunk: &SseChunk) -> (d: ChatDelta)
    ensures
        d.content == chunk_content(*chunk),
        d.reasoning == chunk_reasoning(*chunk),
        d.finish == chunk_finish(*chunk),
        d.tool_calls@ == chunk_tool_calls(*chunk),
{
    let ghost ch = chunk.choices@;
    let mut content: Option<String> = None;
    let mut reasoning: Option<String> = None;
    let mut finish: Option<String> = None;
    let mut tool_calls: Vec<ToolCallDelta> = Vec::new();
    let mut i: usize = 0;
    while i < chunk.choices.len()
        invariant
            i <= chunk.choices.len(),
            ch == chunk.choices@,
            content == last_some(
                ch.subrange(0, i as int).map_values(|x: SseChoice| x.delta.content),
            ),
            reasoning == last_some(
                ch.subrange(0, i as int).map_values(|x: SseChoice| x.delta.reasoning_content),
            ),
            finish == last_some(
                ch.subrange(0, i as int).map_values(|x: SseChoice| x.finish_reason),
            ),
            i == 0 ==> tool_calls@.len() == 0,
            i > 0 ==> tool_calls@ == ch[i - 1].delta.tool_calls@.map_values(
                |t: SseToolCall| tool_delta_of(t),
            ),
        decreases chunk.choices.len() - i,
    {
        let choice = &chunk.choices[i];
        proof {
            let p = ch.subrange(0, i as int);
            let q = ch.subrange(0, i + 1);
            assert(q =~= p.push(ch[i as int]));
            assert(q.map_values(|x: SseChoice| x.delta.content) =~= p.map_values(
                |x: SseChoice| x.delta.content,
            ).push(ch[i as int].delta.content));
            assert(q.map_values(|x: SseChoice| x.delta.reasoning_content) =~= p.map_values(
                |x: SseChoice| x.delta.reasoning_content,
            ).push(ch[i as int].delta.reasoning_content));
            assert(q.map_values(|x: SseChoice| x.finish_reason) =~= p.map_values(
                |x: SseChoice| x.finish_reason,
            ).push(ch[i as int].finish_reason));
            lemma_last_some_push(
                p.map_values(|x: SseChoice| x.delta.content),
                ch[i as int].delta.content,
            );
            lemma_last_some_push(
                p.map_values(|x: SseChoice| x.delta.reasoning_content),
                ch[i as int].delta.reasoning_content,
            );
            lemma_last_some_push(
                p.map_values(|x: SseChoice| x.finish_reason),
                ch[i as int].finish_reason,
            );
        }
        if choice.finish_reason.is_some() {
            finish = dup_opt(&choice.finish_reason);
        }
        if choice.delta.content.is_some() {
            content = dup_opt(&choice.delta.content);
        }
        if choice.delta.reasoning_content.is_some() {
            reasoning = dup_opt(&choice.delta.reasoning_content);
        }
        let mut calls: Vec<ToolCallDelta> = Vec::new();
        let mut j: usize = 0;
        while j < choice.delta.tool_calls.len()
            invariant
                j <= choice.delta.tool_calls.len(),
                calls@ == choice.delta.tool_calls@.subrange(0, j as int).map_values(
                    |t: SseToolCall| tool_delta_of(t),
                ),
            decreases choice.delta.tool_calls.len() - j,
        {
            let t = &choice.delta.tool_calls[j];
            calls.push(
                ToolCallDelta {
                    index: t.index,
                    id: dup_opt(&t.id),
                    name: dup_opt(&t.function.name),
                    arguments: dup_opt(&t.function.arguments),
                },
            );
            j += 1;
            assert(calls@ =~= choice.delta.tool_calls@.subrange(0, j as int).map_values(
                |t: SseToolCall| tool_delta_of(t),
            ));
        }
        assert(choice.delta.tool_calls@.subrange(0, j as int) =~= choice.delta.tool_calls@);
        tool_calls = calls;
        i += 1;
    }
    assert(ch.subrange(0, ch.len() as int) =~= ch);
    ChatDelta { content, reasoning, tool_calls, finish }
}

/// Whether a stream payload is the end-of-stream marker `[DONE]` (surrounding
/// whitespace aside).
pub fn is_done_marker(payload: &str) -> (r: bool)
    ensures
        r == (trim(payload@) == "[DONE]"@),
{
    let t = trim_str(payload);
    let m = to_chars("[DONE]");
    chars_eq(&t, &m)
}

/// The delta standing for the end-of-stream marker: finish reason `stop`.
pub fn done_delta() -> (d: ChatDelta)
    ensures
        d.content is None,
        d.reasoning is None,
        d.tool_calls@.len() == 0,
        d.finish matches Some(f) && f@ == "stop"@,
{
    ChatDelta { content: None, reasoning: None, tool_calls: Vec::new(), finish: Some(owned("stop")) }
}

// ---------------------------------------------------------------------------
// Endpoint addresses
// ---------------------------------------------------------------------------

/// `s` with every trailing `/` removed (`str::trim_end_matches('/')`).
pub open spec fn strip_trailing_slashes(s: Seq<char>) -> Seq<char>
    decreases s.len(),
{
    if s.len() > 0 && s.last() == '/' {
        strip_trailing_slashes(s.drop_last())
    } else {
        s
    }
}

/// The base address a client keeps: trailing slashes removed.
pub fn client_base_url(base_url: &str) -> (r: String)
    ensures
        r@ == strip_trailing_slashes(base_url@),
{
    let v = to_chars(base_url);
    let mut n: usize = v.len();
    assert(v@.subrange(0, n as int) =~= v@);
    while n > 0 && v[n - 1] == '/'
        invariant
            n <= v.len(),
            strip_trailing_slashes(v@) == strip_trailing_slashes(v@.subrange(0, n as int)),
        decreases n,
    {
        assert(v@.subrange(0, n as int).drop_last() =~= v@.subrange(0, n - 1));
        n -= 1;
    }
    let mut out: Vec<char> = Vec::new();
    let mut i: usize = 0;
    while i < n
        invariant
            i <= n <= v.len(),
            out@ == v@.subrange(0, i as int),
        decreases n - i,
    {
        out.push(v[i]);
        i += 1;
        assert(out@ =~= v@.subrange(0, i as int));
    }
    from_chars(&out)
}

/// The address of an API path under a base address.
pub fn endpoint(base_url: &str, path: &str) -> (r: String)
    ensures
        r@ == base_url@ + path@,
{
    let mut out = to_chars(base_url);
    append_str(&mut out, path);
    from_chars(&out)
}

/// The strings present in a sequence of options, in order.
pub open spec fn present(s: Seq<Option<String>>) -> Seq<String>
    decreases s.len(),
{
    if s.len() == 0 {
        seq![]
    } else if s.last() is Some {
        present(s.drop_last()).push(s.last()->0)
    } else {
        present(s.drop_last())
    }
}

/// The model identifiers of a model catalog, in order, skipping entries without one.
pub fn model_ids(entries: &Vec<Option<String>>) -> (r: Vec<String>)
    ensures
        r@ == present(entries@),
{
    let mut r: Vec<String> = Vec::new();
    let mut i: usize = 0;
    while i < entries.len()
        invariant
            i <= entries.len(),
            r@ == present(entries@.subrange(0, i as int)),
        decreases entries.len() - i,
    {
        assert(entries@.subrange(0, i + 1).drop_last() =~= entries@.subrange(0, i as int));
        match &entries[i] {
            Some(id) => {
                r.push(id.clone());
            },
            None => {},
        }
        i += 1;
    }
    assert(entries@.subrange(0, entries.len() as int) =~= entries@);
    r
}

} // verus!
