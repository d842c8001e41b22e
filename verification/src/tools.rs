//! The workspace tools the agent can call: their schemas, argument reading,
//! the sandbox rule for paths, and the text each tool reports.
use vstd::prelude::*;
use crate::calls;
use crate::error::{error_text, AppError};
use crate::paths::{is_within, join_path, path_join, pieces, split_pieces, within};
use crate::text::{
    chars_eq,
    append_chars, append_str, chars_start_with, decimal, find, find_chars, from_chars, has_prefix,
    is_blank, owned, push_decimal, push_signed_decimal, signed_decimal, slice_chars, str_eq,
    str_is_blank, take_chars, take_prefix, to_chars,
};

verus! {

/// Sandboxed context for tool execution.
#[derive(Debug, Clone)]
pub struct ToolCtx {
    pub workspace_dir: String,
    pub allow_bash: bool,
}

/// One string parameter of a tool.
#[derive(Debug, Clone)]
pub struct ParamSpec {
    pub name: String,
    pub description: Option<String>,
}

/// A tool's parameters: an object of string properties, some of them required.
#[derive(Debug, Clone)]
pub struct ToolParameters {
    pub properties: Vec<ParamSpec>,
    pub required: Vec<String>,
}

/// A tool as it is offered to the model.
#[derive(Debug, Clone)]
pub struct ToolSpec {
    pub name: String,
    pub description: String,
    pub parameters: ToolParameters,
}

/// The outcome of one tool call.
#[derive(Debug, Clone)]
pub struct ToolResult {
    pub ok: bool,
    pub output: String,
}

/// The content of a parameter description.
pub struct ParamView {
    pub name: Seq<char>,
    pub description: Option<Seq<char>>,
}

/// The content of a tool description.
pub struct ToolSpecView {
    pub name: Seq<char>,
    pub description: Seq<char>,
    pub properties: Seq<ParamView>,
    pub required: Seq<Seq<char>>,
}

pub open spec fn param_view(p: ParamSpec) -> ParamView {
    ParamView {
        name: p.name@,
        description: match p.description {
            Some(d) => Some(d@),
            None => None,
        },
    }
}

pub open spec fn spec_view(t: ToolSpec) -> ToolSpecView {
    ToolSpecView {
        name: t.name@,
        description: t.description@,
        properties: t.parameters.properties@.map_values(|p: ParamSpec| param_view(p)),
        required: t.parameters.required@.map_values(|s: String| s@),
    }
}

pub open spec fn read_file_tool() -> ToolSpecView {
    ToolSpecView {
        name: "read_file"@,
        description: "Read the contents of a text file. Returns up to 100KB. Path is relative to the workspace directory."@,
        properties: seq![ParamView { name: "path"@, description: Some("File path (relative to workspace)"@) }],
        required: seq!["path"@],
    }
}

pub open spec fn write_file_tool() -> ToolSpecView {
    ToolSpecView {
        name: "write_file"@,
        description: "Create or overwrite a text file. Creates parent directories as needed. Path is relative to the workspace directory."@,
        properties: seq![
            ParamView { name: "path"@, description: Some("File path (relative to workspace)"@) },
            ParamView { name: "content"@, description: Some("Full file content"@) },
        ],
        required: seq!["path"@, "content"@],
    }
}

pub open spec fn edit_file_tool() -> ToolSpecView {
    ToolSpecView {
        name: "edit_file"@,
        description: "Replace the first occurrence of an exact substring in a file. Fails if the old text is not found. Path is relative to the workspace directory."@,
        properties: seq![
            ParamView { name: "path"@, description: None },
            ParamView { name: "old"@, description: Some("Exact text to replace"@) },
            ParamView { name: "new"@, description: Some("Replacement text"@) },
        ],
        required: seq!["path"@, "old"@, "new"@],
    }
}

pub open spec fn list_dir_tool() -> ToolSpecView {
    ToolSpecView {
        name: "list_dir"@,
        description: "List files and directories under a path (max depth 2, max 200 entries). Path is relative to the workspace directory."@,
        properties: seq![
            ParamView {
                name: "path"@,
                description: Some("Directory path (relative to workspace), empty = workspace root"@),
            },
        ],
        required: seq![],
    }
}

pub open spec fn bash_tool() -> ToolSpecView {
    ToolSpecView {
        name: "bash"@,
        description: "Run a shell command in the workspace directory. Output is captured (stdout + stderr). Timeout 30s."@,
        properties: seq![ParamView { name: "command"@, description: Some("Shell command to execute"@) }],
        required: seq!["command"@],
    }
}

/// The tools offered: the four file tools, and `bash` only when it is allowed.
pub open spec fn offered_tools(allow_bash: bool) -> Seq<ToolSpecView> {
    let base = seq![read_file_tool(), write_file_tool(), edit_file_tool(), list_dir_tool()];
    if allow_bash {
        base.push(bash_tool())
    } else {
        base
    }
}

fn param(name: &str, description: Option<&str>) -> (p: ParamSpec)
    ensures
        param_view(p) == (ParamView {
            name: name@,
            description: match description {
                Some(d) => Some(d@),
                None => None,
            },
        }),
{
    ParamSpec {
        name: owned(name),
        description: match description {
            Some(d) => Some(owned(d)),
            None => None,
        },
    }
}

fn tool_spec(name: &str, description: &str, properties: Vec<ParamSpec>, required: Vec<String>) -> (t:
    ToolSpec)
    ensures
        t.name@ == name@,
        t.description@ == description@,
        t.parameters.properties@ == properties@,
        t.parameters.required@ == required@,
{
    ToolSpec {
        name: owned(name),
        description: owned(description),
        parameters: ToolParameters { properties, required },
    }
}

/// The tools offered to the model.
pub fn all_tools(allow_bash: bool) -> (r: Vec<ToolSpec>)
    ensures
        r@.map_values(|t: ToolSpec| spec_view(t)) == offered_tools(allow_bash),
{
    let mut tools: Vec<ToolSpec> = Vec::new();

    let mut props: Vec<ParamSpec> = Vec::new();
    props.push(param("path", Some("File path (relative to workspace)")));
    let mut req: Vec<String> = Vec::new();
    req.push(owned("path"));
    let t = tool_spec(
        "read_file",
        "Read the contents of a text file. Returns up to 100KB. Path is relative to the workspace directory.",
        props,
        req,
    );
    assert(spec_view(t) =~= read_file_tool()) by {
        assert(t.parameters.properties@.map_values(|p: ParamSpec| param_view(p)) =~= read_file_tool().properties);
        assert(t.parameters.required@.map_values(|s: String| s@) =~= read_file_tool().required);
    }
    tools.push(t);

    let mut props: Vec<ParamSpec> = Vec::new();
    props.push(param("path", Some("File path (relative to workspace)")));
    props.push(param("content", Some("Full file content")));
    let mut req: Vec<String> = Vec::new();
    req.push(owned("path"));
    req.push(owned("content"));
    let t = tool_spec(
        "write_file",
        "Create or overwrite a text file. Creates parent directories as needed. Path is relative to the workspace directory.",
        props,
        req,
    );
    assert(spec_view(t) =~= write_file_tool()) by {
        assert(t.parameters.properties@.map_values(|p: ParamSpec| param_view(p)) =~= write_file_tool().properties);
        assert(t.parameters.required@.map_values(|s: String| s@) =~= write_file_tool().required);
    }
    tools.push(t);

    let mut props: Vec<ParamSpec> = Vec::new();
    props.push(param("path", None));
    props.push(param("old", Some("Exact text to replace")));
    props.push(param("new", Some("Replacement text")));
    let mut req: Vec<String> = Vec::new();
    req.push(owned("path"));
    req.push(owned("old"));
    req.push(owned("new"));
    let t = tool_spec(
        "edit_file",
        "Replace the first occurrence of an exact substring in a file. Fails if the old text is not found. Path is relative to the workspace directory.",
        props,
        req,
    );
    assert(spec_view(t) =~= edit_file_tool()) by {
        assert(t.parameters.properties@.map_values(|p: ParamSpec| param_view(p)) =~= edit_file_tool().properties);
        assert(t.parameters.required@.map_values(|s: String| s@) =~= edit_file_tool().required);
    }
    tools.push(t);

    let mut props: Vec<ParamSpec> = Vec::new();
    props.push(param("path", Some("Directory path (relative to workspace), empty = workspace root")));
    let req: Vec<String> = Vec::new();
    let t = tool_spec(
        "list_dir",
        "List files and directories under a path (max depth 2, max 200 entries). Path is relative to the workspace directory.",
        props,
        req,
    );
    assert(spec_view(t) =~= list_dir_tool()) by {
        assert(t.parameters.properties@.map_values(|p: ParamSpec| param_view(p)) =~= list_dir_tool().properties);
        assert(t.parameters.required@.map_values(|s: String| s@) =~= list_dir_tool().required);
    }
    tools.push(t);

    if allow_bash {
        let mut props: Vec<ParamSpec> = Vec::new();
        props.push(param("command", Some("Shell command to execute")));
        let mut req: Vec<String> = Vec::new();
        req.push(owned("command"));
        let t = tool_spec(
            "bash",
            "Run a shell command in the workspace directory. Output is captured (stdout + stderr). Timeout 30s.",
            props,
            req,
        );
        assert(spec_view(t) =~= bash_tool()) by {
            assert(t.parameters.properties@.map_values(|p: ParamSpec| param_view(p)) =~= bash_tool().properties);
            assert(t.parameters.required@.map_values(|s: String| s@) =~= bash_tool().required);
        }
        tools.push(t);
    }
    assert(tools@.map_values(|t: ToolSpec| spec_view(t)) =~= offered_tools(allow_bash));
    tools
}

// ---------------------------------------------------------------------------
// Results
// ---------------------------------------------------------------------------

/// The JSON object fed back to the model for a tool result, given the
/// output already written as a JSON string literal: `ok` and the output, or
/// `ok: false` and the output as `error`, keys in the order `serde_json`
/// writes them.
pub open spec fn payload_from(ok: bool, output_q: Seq<char>) -> Seq<char> {
    if ok {
        "{\"ok\":true,\"output\":"@ + output_q + "}"@
    } else {
        "{\"error\":"@ + output_q + ",\"ok\":false}"@
    }
}

/// The JSON object fed back to the model for a tool result.
pub open spec fn payload_text(r: ToolResult) -> Seq<char> {
    payload_from(r.ok, calls::json_string_literal(r.output@))
}

impl ToolResult {
    /// JSON string fed back to the model as a tool result.
    pub fn to_payload_json(&self) -> (r: String)
        ensures
            r@ == payload_text(*self),
    {
        let q = calls::json_quote(self.output.as_str());
        payload_json_quoted(self.ok, q.as_str())
    }
}

/// The tool-result JSON object from the outcome and the output already
/// written as a JSON string literal.
pub fn payload_json_quoted(ok: bool, output_q: &str) -> (r: String)
    ensures
        r@ == payload_from(ok, output_q@),
{
    let mut out: Vec<char> = Vec::new();
    if ok {
        append_str(&mut out, "{\"ok\":true,\"output\":");
        append_str(&mut out, output_q);
        append_str(&mut out, "}");
    } else {
        append_str(&mut out, "{\"error\":");
        append_str(&mut out, output_q);
        append_str(&mut out, ",\"ok\":false}");
    }
    from_chars(&out)
}

/// A failed result carrying an error's text.
pub fn err_result(e: AppError) -> (r: ToolResult)
    ensures
        !r.ok,
        r.output@ == error_text(e),
{
    ToolResult { ok: false, output: e.message() }
}

fn text_result(ok: bool, chars: &[char]) -> (r: ToolResult)
    ensures
        r.ok == ok,
        r.output@ == chars@,
{
    ToolResult { ok, output: from_chars(chars) }
}

// ---------------------------------------------------------------------------
// Arguments
// ---------------------------------------------------------------------------

/// The error for a missing string argument.
pub open spec fn missing_arg_text(key: Seq<char>) -> Seq<char> {
    "缺少参数 '"@ + key + "'"@
}

/// The string argument `key` of a call whose argument text is `args`, given
/// what parsing found under `key`: `None` when the text is not JSON (it then
/// counts as the object `{"raw": args}`), `Some(v)` otherwise.
pub open spec fn arg_given(found: Option<Option<Seq<char>>>, args: Seq<char>, key: Seq<char>) -> Option<
    Seq<char>,
> {
    match found {
        None => if key == "raw"@ {
            Some(args)
        } else {
            None
        },
        Some(v) => v,
    }
}

/// The string argument `key` of a call whose argument text is `args`. Text
/// that is not JSON counts as the object `{"raw": args}`.
pub open spec fn string_arg(args: Seq<char>, key: Seq<char>) -> Option<Seq<char>> {
    arg_given(calls::json_str_field_of(args, key), args, key)
}

/// The string argument `key`, or an error naming it.
pub fn str_arg(args: &str, key: &str) -> (r: Result<String, AppError>)
    ensures
        match string_arg(args@, key@) {
            Some(v) => r matches Ok(s) && s@ == v,
            None => r matches Err(e) && e == AppError::Tool(e->Tool_0) && e->Tool_0@
                == missing_arg_text(key@),
        },
{
    let found = calls::json_str_field(args, key);
    arg_from_found(found, args, key)
}

/// The string argument `key`, or an error naming it, given what parsing the
/// argument text `args` found under `key`.
pub fn arg_from_found(found: Option<Option<String>>, args: &str, key: &str) -> (r: Result<
    String,
    AppError,
>)
    ensures
        match arg_given(
            match found {
                None => None,
                Some(None) => Some(None),
                Some(Some(v)) => Some(Some(v@)),
            },
            args@,
            key@,
        ) {
            Some(v) => r matches Ok(s) && s@ == v,
            None => r matches Err(e) && e == AppError::Tool(e->Tool_0) && e->Tool_0@
                == missing_arg_text(key@),
        },
{
    match found {
        Some(Some(v)) => Ok(v),
        Some(None) => Err(missing_arg(key)),
        None => {
            if str_eq(key, "raw") {
                Ok(owned(args))
            } else {
                Err(missing_arg(key))
            }
        },
    }
}

fn missing_arg(key: &str) -> (e: AppError)
    ensures
        e == AppError::Tool(e->Tool_0),
        e->Tool_0@ == missing_arg_text(key@),
{
    let mut out: Vec<char> = Vec::new();
    append_str(&mut out, "缺少参数 '");
    append_str(&mut out, key);
    append_str(&mut out, "'");
    AppError::Tool(from_chars(&out))
}

/// The optional string argument `key`: empty when it is absent.
pub fn str_arg_or_empty(args: &str, key: &str) -> (r: String)
    ensures
        r@ == match string_arg(args@, key@) {
            Some(v) => v,
            None => Seq::<char>::empty(),
        },
{
    match str_arg(args, key) {
        Ok(v) => v,
        Err(_) => String::new(),
    }
}

// ---------------------------------------------------------------------------
// The workspace sandbox
// ---------------------------------------------------------------------------

/// The path a tool argument names: the workspace itself for a blank
/// argument, otherwise the argument joined onto the workspace.
pub open spec fn target_path(base: Seq<char>, rel: Seq<char>) -> Seq<char> {
    if is_blank(rel) {
        base
    } else {
        path_join(base, rel)
    }
}

pub open spec fn escape_text(rel: Seq<char>) -> Seq<char> {
    "路径越界（不允许访问工作目录之外）："@ + rel
}

pub open spec fn missing_path_text(rel: Seq<char>) -> Seq<char> {
    "路径无效或不存在: "@ + rel
}

pub open spec fn bad_workspace_text(e: Seq<char>) -> Seq<char> {
    "无法解析工作目录: "@ + e
}

/// `rest` climbs out of a directory: it is absolute or one of its pieces
/// is `..`.
pub open spec fn climbs(rest: Seq<char>) -> bool {
    (rest.len() > 0 && rest[0] == '/') || exists|i: int|
        0 <= i < pieces(rest).len() && #[trigger] pieces(rest)[i] == seq!['.', '.']
}

/// The sandbox decision for a tool path. `base` is the canonical workspace
/// (or the text of the error canonicalizing it); `canon_target` the
/// canonical form of the target when it exists; `canon_parent` the canonical
/// form of the target's parent directory when that exists.
pub open spec fn sandbox(
    base: Result<Seq<char>, Seq<char>>,
    rel: Seq<char>,
    canon_target: Option<Seq<char>>,
    canon_parent: Option<Seq<char>>,
) -> Result<Seq<char>, Seq<char>> {
    match base {
        Err(e) => Err(bad_workspace_text(e)),
        Ok(b) => match canon_target {
            Some(c) => if within(c, b) {
                Ok(c)
            } else {
                Err(escape_text(rel))
            },
            None => match canon_parent {
                None => Err(missing_path_text(rel)),
                Some(p) => if within(p, b) {
                    Ok(target_path(b, rel))
                } else {
                    Err(escape_text(rel))
                },
            },
        },
    }
}

/// Nothing outside the workspace is handed to a tool: when the sandbox
/// accepts a path, either the target exists and its canonical form lies in
/// the workspace, or it does not exist yet and its parent directory lies in
/// the workspace.
pub proof fn lemma_sandbox_confines(
    base: Seq<char>,
    rel: Seq<char>,
    canon_target: Option<Seq<char>>,
    canon_parent: Option<Seq<char>>,
)
    ensures
        sandbox(Ok(base), rel, canon_target, canon_parent) matches Ok(p) ==> {
            ||| (canon_target == Some(p) && within(p, base))
            ||| (canon_target is None && canon_parent is Some && within(canon_parent->0, base)
                && p == target_path(base, rel))
        },
{
}

/// The sandbox decision for a path a tool writes to. `base` is the canonical workspace
/// (or the text of the error canonicalizing it); `canon_target` the
/// canonical form of the target when it exists; otherwise `ancestor` holds
/// the canonical form of the target's nearest existing ancestor directory and
/// the part of the target below that ancestor, which a write creates.
pub open spec fn sandbox_write(
    base: Result<Seq<char>, Seq<char>>,
    rel: Seq<char>,
    canon_target: Option<Seq<char>>,
    ancestor: Option<(Seq<char>, Seq<char>)>,
) -> Result<Seq<char>, Seq<char>> {
    match base {
        Err(e) => Err(bad_workspace_text(e)),
        Ok(b) => match canon_target {
            Some(c) => if within(c, b) {
                Ok(c)
            } else {
                Err(escape_text(rel))
            },
            None => match ancestor {
                None => Err(missing_path_text(rel)),
                Some((a, rest)) => if within(a, b) && !climbs(rest) {
                    Ok(target_path(b, rel))
                } else {
                    Err(escape_text(rel))
                },
            },
        },
    }
}

/// Nothing outside the workspace is written to: when the write sandbox
/// accepts a path, either the target exists and its canonical form lies in
/// the workspace, or it does not exist yet, its nearest existing ancestor
/// lies in the workspace, and the part below that ancestor only descends.
pub proof fn lemma_write_sandbox_confines(
    base: Seq<char>,
    rel: Seq<char>,
    canon_target: Option<Seq<char>>,
    ancestor: Option<(Seq<char>, Seq<char>)>,
)
    ensures
        sandbox_write(Ok(base), rel, canon_target, ancestor) matches Ok(p) ==> {
            ||| (canon_target == Some(p) && within(p, base))
            ||| (canon_target is None && ancestor is Some && within(ancestor.unwrap().0, base)
                && !climbs(ancestor.unwrap().1) && p == target_path(base, rel))
        },
{
}

fn climbs_out(rest: &str) -> (r: bool)
    ensures
        r == climbs(rest@),
{
    let v = to_chars(rest);
    if v.len() > 0 && v[0] == '/' {
        return true;
    }
    let ps = split_pieces(&v);
    let ghost pv = ps@.map_values(|l: Vec<char>| l@);
    let mut dotdot: Vec<char> = Vec::new();
    dotdot.push('.');
    dotdot.push('.');
    assert(dotdot@ =~= seq!['.', '.']);
    let mut i: usize = 0;
    while i < ps.len()
        invariant
            i <= ps.len(),
            pv == ps@.map_values(|l: Vec<char>| l@),
            pv == pieces(v@),
            v@ == rest@,
            dotdot@ == seq!['.', '.'],
            forall|j: int| 0 <= j < i ==> pv[j] != seq!['.', '.'],
        decreases ps.len() - i,
    {
        if chars_eq(&ps[i], &dotdot) {
            assert(ps@[i as int]@ == seq!['.', '.']);
            assert(pv[i as int] == ps@[i as int]@);
            assert(pieces(rest@)[i as int] == seq!['.', '.']);
            return true;
        }
        i += 1;
    }
    false
}

/// The path a tool argument names under the canonical workspace `base`.
pub fn workspace_target(base: &str, rel: &str) -> (r: String)
    ensures
        r@ == target_path(base@, rel@),
{
    if str_is_blank(rel) {
        owned(base)
    } else {
        join_path(base, rel)
    }
}

fn error_with(prefix: &str, detail: &str) -> (e: AppError)
    ensures
        e == AppError::Tool(e->Tool_0),
        e->Tool_0@ == prefix@ + detail@,
{
    let mut out = to_chars(prefix);
    append_str(&mut out, detail);
    AppError::Tool(from_chars(&out))
}

/// Resolves a (possibly relative) tool path against the workspace, forbidding
/// escapes: a path that exists must canonicalize into the workspace; one that
/// does not exist yet must have its parent directory inside the workspace.
pub fn resolve_in_workspace(
    base: Result<String, String>,
    rel: &str,
    canon_target: Option<String>,
    canon_parent: Option<String>,
) -> (r: Result<String, AppError>)
    ensures
        match sandbox(
            match base {
                Ok(b) => Ok(b@),
                Err(e) => Err(e@),
            },
            rel@,
            match canon_target {
                Some(c) => Some(c@),
                None => None,
            },
            match canon_parent {
                Some(c) => Some(c@),
                None => None,
            },
        ) {
            Ok(p) => r matches Ok(s) && s@ == p,
            Err(m) => r matches Err(e) && e == AppError::Tool(e->Tool_0) && e->Tool_0@ == m,
        },
{
    let b = match base {
        Err(e) => {
            return Err(error_with("无法解析工作目录: ", e.as_str()));
        },
        Ok(b) => b,
    };
    match canon_target {
        Some(c) => {
            if is_within(c.as_str(), b.as_str()) {
                Ok(c)
            } else {
                Err(error_with("路径越界（不允许访问工作目录之外）：", rel))
            }
        },
        None => match canon_parent {
            None => Err(error_with("路径无效或不存在: ", rel)),
            Some(p) => {
                if is_within(p.as_str(), b.as_str()) {
                    Ok(workspace_target(b.as_str(), rel))
                } else {
                    Err(error_with("路径越界（不允许访问工作目录之外）：", rel))
                }
            },
        },
    }
}

/// Resolves the path a tool writes to, forbidding escapes: a path that
/// exists must canonicalize into the workspace; one that does not exist yet
/// (with any missing folders above it, which the write creates) must have
/// its nearest existing ancestor inside the workspace and no `..` below it.
pub fn resolve_for_write(
    base: Result<String, String>,
    rel: &str,
    canon_target: Option<String>,
    ancestor: Option<(String, String)>,
) -> (r: Result<String, AppError>)
    ensures
        match sandbox_write(
            match base {
                Ok(b) => Ok(b@),
                Err(e) => Err(e@),
            },
            rel@,
            match canon_target {
                Some(c) => Some(c@),
                None => None,
            },
            match ancestor {
                Some((a, rest)) => Some((a@, rest@)),
                None => None,
            },
        ) {
            Ok(p) => r matches Ok(s) && s@ == p,
            Err(m) => r matches Err(e) && e == AppError::Tool(e->Tool_0) && e->Tool_0@ == m,
        },
{
    let b = match base {
        Err(e) => {
            return Err(error_with("无法解析工作目录: ", e.as_str()));
        },
        Ok(b) => b,
    };
    match canon_target {
        Some(c) => {
            if is_within(c.as_str(), b.as_str()) {
                Ok(c)
            } else {
                Err(error_with("路径越界（不允许访问工作目录之外）：", rel))
            }
        },
        None => match ancestor {
            None => Err(error_with("路径无效或不存在: ", rel)),
            Some((a, rest)) => {
                if is_within(a.as_str(), b.as_str()) && !climbs_out(rest.as_str()) {
                    Ok(workspace_target(b.as_str(), rel))
                } else {
                    Err(error_with("路径越界（不允许访问工作目录之外）：", rel))
                }
            },
        },
    }
}

// ---------------------------------------------------------------------------
// Dispatch
// ---------------------------------------------------------------------------

/// What a tool call comes to before any file or process is touched.
pub enum ToolPlan {
    Bash,
    ReadFile,
    WriteFile,
    EditFile,
    ListDir,
    /// The call is answered at once with this result.
    Answer(ToolResult),
}

pub open spec fn bash_disabled_text() -> Seq<char> {
    "bash 工具被禁用。请在设置中开启「允许执行 Bash 命令」。"@
}

pub open spec fn unknown_tool_text(name: Seq<char>) -> Seq<char> {
    "未知工具: "@ + name
}

/// The plan for a call of the tool `name`: one of the five tools, `bash`
/// refused when it is not allowed, and any other name refused as unknown.
pub open spec fn plan_of(name: Seq<char>, allow_bash: bool, p: ToolPlan) -> bool {
    if name == "bash"@ {
        if allow_bash {
            p is Bash
        } else {
            p matches ToolPlan::Answer(r) && !r.ok && r.output@ == bash_disabled_text()
        }
    } else if name == "read_file"@ {
        p is ReadFile
    } else if name == "write_file"@ {
        p is WriteFile
    } else if name == "edit_file"@ {
        p is EditFile
    } else if name == "list_dir"@ {
        p is ListDir
    } else {
        p matches ToolPlan::Answer(r) && !r.ok && r.output@ == unknown_tool_text(name)
    }
}

/// Decides how to answer a call of the tool `name`.
pub fn tool_plan(name: &str, ctx: &ToolCtx) -> (p: ToolPlan)
    ensures
        plan_of(name@, ctx.allow_bash, p),
{
    if str_eq(name, "bash") {
        if !ctx.allow_bash {
            return ToolPlan::Answer(
                ToolResult {
                    ok: false,
                    output: owned("bash 工具被禁用。请在设置中开启「允许执行 Bash 命令」。"),
                },
            );
        }
        ToolPlan::Bash
    } else if str_eq(name, "read_file") {
        ToolPlan::ReadFile
    } else if str_eq(name, "write_file") {
        ToolPlan::WriteFile
    } else if str_eq(name, "edit_file") {
        ToolPlan::EditFile
    } else if str_eq(name, "list_dir") {
        ToolPlan::ListDir
    } else {
        let mut out: Vec<char> = Vec::new();
        append_str(&mut out, "未知工具: ");
        append_str(&mut out, name);
        ToolPlan::Answer(text_result(false, &out))
    }
}

// ---------------------------------------------------------------------------
// What each tool reports
// ---------------------------------------------------------------------------

/// The most bytes of a file's content `read_file` returns (100 KB).
pub const READ_LIMIT: usize = 100000;

/// The number of bytes of a character in UTF-8.
pub open spec fn utf8_width(c: char) -> int {
    if (c as int) < 0x80 {
        1
    } else if (c as int) < 0x800 {
        2
    } else if (c as int) < 0x10000 {
        3
    } else {
        4
    }
}

/// The number of bytes of a text in UTF-8.
pub open spec fn utf8_size(s: Seq<char>) -> int
    decreases s.len(),
{
    if s.len() == 0 {
        0
    } else {
        utf8_size(s.drop_last()) + utf8_width(s.last())
    }
}

/// How many leading characters of `s` fit, encoded in UTF-8, in `n` bytes.
pub open spec fn fit_len(s: Seq<char>, n: int) -> nat
    decreases s.len(),
{
    if s.len() == 0 || utf8_width(s[0]) > n {
        0
    } else {
        1 + fit_len(s.drop_first(), n - utf8_width(s[0]))
    }
}

/// What `read_file` reports for a file's content: the content when it fits
/// in 100000 bytes, otherwise the characters that fit and a truncation note.
pub open spec fn read_output(content: Seq<char>) -> Seq<char> {
    let k = fit_len(content, 100000);
    if k < content.len() {
        content.take(k as int) + "\n\n...(内容超过 "@ + decimal(100000) + " 字节，已截断)"@
    } else {
        content
    }
}

proof fn lemma_fit_len_take(s: Seq<char>, n: int)
    requires
        n >= 0,
    ensures
        fit_len(s, n) <= s.len(),
        utf8_size(s.take(fit_len(s, n) as int)) <= n,
        fit_len(s, n) < s.len() ==> utf8_size(s.take(fit_len(s, n) as int + 1)) > n,
    decreases s.len(),
{
    if s.len() == 0 || utf8_width(s[0]) > n {
        assert(s.take(0) =~= Seq::<char>::empty());
        if s.len() > 0 {
            assert(s.take(1).drop_last() =~= s.take(0));
        }
    } else {
        let w = utf8_width(s[0]);
        let t = s.drop_first();
        lemma_fit_len_take(t, n - w);
        let k = fit_len(t, n - w);
        lemma_utf8_size_cons(s[0], t.take(k as int));
        assert(s.take(k as int + 1) =~= seq![s[0]] + t.take(k as int));
        if k < t.len() {
            lemma_utf8_size_cons(s[0], t.take(k as int + 1));
            assert(s.take(k as int + 2) =~= seq![s[0]] + t.take(k as int + 1));
        }
    }
}

proof fn lemma_utf8_size_cons(c: char, s: Seq<char>)
    ensures
        utf8_size(seq![c] + s) == utf8_width(c) + utf8_size(s),
    decreases s.len(),
{
    let cs = seq![c] + s;
    assert(cs.len() > 0);
    assert(utf8_size(cs) == utf8_size(cs.drop_last()) + utf8_width(cs.last()));
    if s.len() == 0 {
        assert(cs.drop_last() =~= Seq::<char>::empty());
        assert(cs.last() == c);
    } else {
        lemma_utf8_size_cons(c, s.drop_last());
        assert(cs.drop_last() =~= seq![c] + s.drop_last());
        assert(cs.last() == s.last());
    }
}

/// A truncated read keeps as much of the file as fits in 100 KB: the
/// characters it returns take at most 100000 bytes, and one more would not
/// fit.
pub proof fn lemma_read_within_limit(content: Seq<char>)
    ensures
        utf8_size(content.take(fit_len(content, 100000) as int)) <= 100000,
        fit_len(content, 100000) < content.len() ==> utf8_size(
            content.take(fit_len(content, 100000) as int + 1),
        ) > 100000,
{
    lemma_fit_len_take(content, 100000);
}

fn char_width(c: char) -> (w: usize)
    ensures
        w == utf8_width(c),
{
    let v = c as u32;
    if v < 0x80 {
        1
    } else if v < 0x800 {
        2
    } else if v < 0x10000 {
        3
    } else {
        4
    }
}

/// The result of reading a file with the given content.
pub fn read_file_result(content: &str) -> (r: ToolResult)
    ensures
        r.ok,
        r.output@ == read_output(content@),
{
    let chars = to_chars(content);
    let ghost c = chars@;
    let mut i: usize = 0;
    let mut used: usize = 0;
    let mut fits = true;
    assert(c.subrange(0, c.len() as int) =~= c);
    while fits && i < chars.len()
        invariant
            c == chars@,
            i <= chars.len(),
            used <= READ_LIMIT,
            fits ==> fit_len(c, 100000) == i + fit_len(c.subrange(i as int, c.len() as int), 100000 - used),
            !fits ==> fit_len(c, 100000) == i && i < c.len(),
        decreases chars.len() - i + (if fits { 1int } else { 0int }),
    {
        let w = char_width(chars[i]);
        let ghost sub = c.subrange(i as int, c.len() as int);
        assert(sub[0] == c[i as int]);
        if w > READ_LIMIT - used {
            assert(fit_len(sub, 100000 - used) == 0);
            fits = false;
        } else {
            assert(sub.drop_first() =~= c.subrange(i + 1, c.len() as int));
            used = used + w;
            i += 1;
        }
    }
    if !fits {
        let mut out = take_prefix(&chars, i);
        append_str(&mut out, "\n\n...(内容超过 ");
        push_decimal(&mut out, READ_LIMIT as u64);
        append_str(&mut out, " 字节，已截断)");
        assert(c.take(i as int) =~= c.subrange(0, i as int));
        assert(out@ =~= c.take(i as int) + "\n\n...(内容超过 "@ + decimal(100000) + " 字节，已截断)"@);
        text_result(true, &out)
    } else {
        assert(c.subrange(c.len() as int, c.len() as int) =~= Seq::<char>::empty());
        assert(fit_len(c, 100000) == c.len());
        ToolResult { ok: true, output: owned(content) }
    }
}

/// The report of writing `n` bytes to `path`.
pub open spec fn written_text(n: nat, path: Seq<char>) -> Seq<char> {
    "已写入 "@ + decimal(n) + " 字节到 "@ + path
}

/// The result of writing `content` to the file at `path`.
pub fn write_file_result(content: &str, path: &str) -> (r: ToolResult)
    ensures
        r.ok,
        r.output@ == written_text(content.len() as nat, path@),
{
    let mut out: Vec<char> = Vec::new();
    append_str(&mut out, "已写入 ");
    push_decimal(&mut out, content.len() as u64);
    append_str(&mut out, " 字节到 ");
    append_str(&mut out, path);
    text_result(true, &out)
}

/// `content` with its first occurrence of `old` replaced by `new`, or `None`
/// when `old` does not occur.
pub open spec fn edited(content: Seq<char>, old: Seq<char>, new: Seq<char>) -> Option<Seq<char>> {
    match find(content, old) {
        Some(k) => Some(content.subrange(0, k) + new + content.subrange(
            k + old.len(),
            content.len() as int,
        )),
        None => None,
    }
}

/// Replaces the first occurrence of `old` in `content` by `new`.
pub fn replace_first(content: &str, old: &str, new: &str) -> (r: Option<String>)
    ensures
        match edited(content@, old@, new@) {
            Some(t) => r matches Some(s) && s@ == t,
            None => r is None,
        },
{
    let c = to_chars(content);
    let o = to_chars(old);
    proof {
        crate::text::lemma_find(c@, o@);
    }
    match find_chars(&c, &o) {
        Some(k) => {
            let len = c.len();
            assert(k + o@.len() <= len);
            let after: usize = k + o.len();
            let mut out = slice_chars(&c, 0, k);
            append_str(&mut out, new);
            let rest = slice_chars(&c, after, len);
            append_chars(&mut out, &rest);
            Some(from_chars(&out))
        },
        None => None,
    }
}

/// The report of an edit that replaced `n` bytes.
pub open spec fn edited_text(n: nat) -> Seq<char> {
    "已替换 1 处匹配（"@ + decimal(n) + " 处替换前内容）"@
}

pub open spec fn edit_missing_text(path: Seq<char>) -> Seq<char> {
    "edit_file 失败：在 "@ + path + " 中未找到要替换的文本"@
}

/// The result of an edit that replaced `old`.
pub fn edit_done_result(old: &str) -> (r: ToolResult)
    ensures
        r.ok,
        r.output@ == edited_text(old.len() as nat),
{
    let mut out: Vec<char> = Vec::new();
    append_str(&mut out, "已替换 1 处匹配（");
    push_decimal(&mut out, old.len() as u64);
    append_str(&mut out, " 处替换前内容）");
    text_result(true, &out)
}

/// The result of an edit whose text was not found in the file at `path`.
pub fn edit_missing_result(path: &str) -> (r: ToolResult)
    ensures
        !r.ok,
        r.output@ == edit_missing_text(path@),
{
    let mut out: Vec<char> = Vec::new();
    append_str(&mut out, "edit_file 失败：在 ");
    append_str(&mut out, path);
    append_str(&mut out, " 中未找到要替换的文本");
    text_result(false, &out)
}

pub open spec fn not_dir_text(path: Seq<char>) -> Seq<char> {
    "不是目录: "@ + path
}

/// The error for listing a path that is not a directory.
pub fn not_dir_error(path: &str) -> (e: AppError)
    ensures
        e == AppError::Tool(e->Tool_0),
        e->Tool_0@ == not_dir_text(path@),
{
    error_with("不是目录: ", path)
}

/// The most characters `bash` returns on success.
pub const BASH_OUTPUT_LIMIT: usize = 20000;

/// The captured text of a command: standard output, then standard error
/// marked `[stderr] ` on a line of its own when there is any.
pub open spec fn captured(stdout: Seq<char>, stderr: Seq<char>) -> Seq<char> {
    if stderr.len() == 0 {
        stdout
    } else if stdout.len() == 0 {
        "[stderr] "@ + stderr
    } else {
        stdout + "\n"@ + "[stderr] "@ + stderr
    }
}

/// What `bash` reports for a finished command: a failure with the exit code
/// (-1 when there is none) and the captured text, or on success the first
/// 20000 characters of the captured text, `(无输出)` when there is none.
pub open spec fn bash_report(
    stdout: Seq<char>,
    stderr: Seq<char>,
    success: bool,
    code: Option<i32>,
) -> (bool, Seq<char>) {
    let text = captured(stdout, stderr);
    if !success {
        (
            false,
            "退出码 "@ + signed_decimal(
                match code {
                    Some(c) => c as int,
                    None => -1,
                },
            ) + ": "@ + text,
        )
    } else if text.len() == 0 {
        (true, "(无输出)"@)
    } else {
        (true, take_chars(text, 20000))
    }
}

/// The result of a finished shell command.
pub fn bash_result(stdout: &str, stderr: &str, success: bool, code: Option<i32>) -> (r: ToolResult)
    ensures
        (r.ok, r.output@) == bash_report(stdout@, stderr@, success, code),
{
    let mut text = to_chars(stdout);
    let err = to_chars(stderr);
    if err.len() > 0 {
        if text.len() > 0 {
            text.push('\n');
        }
        append_str(&mut text, "[stderr] ");
        append_chars(&mut text, &err);
    }
    proof {
        reveal_strlit("\n");
        assert(text@ =~= captured(stdout@, stderr@));
    }
    if !success {
        let mut out: Vec<char> = Vec::new();
        append_str(&mut out, "退出码 ");
        let c: i64 = match code {
            Some(c) => c as i64,
            None => -1,
        };
        push_signed_decimal(&mut out, c);
        append_str(&mut out, ": ");
        append_chars(&mut out, &text);
        return text_result(false, &out);
    }
    if text.len() == 0 {
        return ToolResult { ok: true, output: owned("(无输出)") };
    }
    let head = take_prefix(&text, BASH_OUTPUT_LIMIT);
    text_result(true, &head)
}

/// A successful command reports what the failed one would after its exit
/// code: the same standard output and marked standard error, cut to the
/// first 20000 characters; `(无输出)` when both streams are empty, and
/// otherwise only when that is just what standard output holds.
pub proof fn lemma_bash_success_is_failure_text(
    stdout: Seq<char>,
    stderr: Seq<char>,
    code: Option<i32>,
)
    ensures
        ({
            let p = "退出码 "@ + signed_decimal(
                match code {
                    Some(c) => c as int,
                    None => -1,
                },
            ) + ": "@;
            let f = bash_report(stdout, stderr, false, code);
            let s = bash_report(stdout, stderr, true, code);
            &&& !f.0 && s.0
            &&& f.1.len() >= p.len() && f.1.subrange(0, p.len() as int) == p
            &&& (stdout.len() + stderr.len() > 0 ==> s.1 == take_chars(
                f.1.subrange(p.len() as int, f.1.len() as int),
                20000,
            ))
            &&& (stdout.len() + stderr.len() == 0 ==> s.1 == "(无输出)"@)
            &&& (s.1 == "(无输出)"@ ==> stdout.len() + stderr.len() == 0 || stdout == "(无输出)"@)
        }),
{
    let p = "退出码 "@ + signed_decimal(
        match code {
            Some(c) => c as int,
            None => -1,
        },
    ) + ": "@;
    let f = bash_report(stdout, stderr, false, code);
    let t = captured(stdout, stderr);
    assert(f.1 == p + t);
    assert(f.1.subrange(0, p.len() as int) =~= p);
    assert(f.1.subrange(p.len() as int, f.1.len() as int) =~= t);
    reveal_strlit("(无输出)");
    reveal_strlit("[stderr] ");
    reveal_strlit("\n");
    if stdout.len() + stderr.len() > 0 {
        assert(t.len() > 0);
        if take_chars(t, 20000) == "(无输出)"@ && stdout != "(无输出)"@ {
            assert("(无输出)"@.len() == 5);
            assert(t.len() <= 20000);
            if stderr.len() == 0 {
                assert(t == stdout);
            } else {
                assert(t[t.len() - 1] == stderr[stderr.len() - 1]);
                assert(t.len() >= 10);
            }
        }
    }
}

/// Standard error is never dropped: when nothing is cut, a successful
/// command reports its standard output, then `[stderr] ` and the standard
/// error text, on a new line after any standard output.
pub proof fn lemma_bash_success_keeps_stderr(stdout: Seq<char>, stderr: Seq<char>, code: Option<i32>)
    requires
        stderr.len() > 0,
        stdout.len() + stderr.len() + 10 <= 20000,
    ensures
        bash_report(stdout, stderr, true, code) == (
            true,
            if stdout.len() == 0 {
                "[stderr] "@ + stderr
            } else {
                stdout + "\n[stderr] "@ + stderr
            },
        ),
{
    reveal_strlit("[stderr] ");
    reveal_strlit("\n[stderr] ");
    reveal_strlit("\n");
    assert("\n"@ + "[stderr] "@ =~= "\n[stderr] "@);
    assert(stdout + "\n"@ + "[stderr] "@ + stderr =~= stdout + "\n[stderr] "@ + stderr);
}

pub open spec fn timeout_text() -> Seq<char> {
    "bash 命令超时（30s）已终止"@
}

/// The result of a shell command stopped by the time limit.
pub fn bash_timeout_result() -> (r: ToolResult)
    ensures
        !r.ok,
        r.output@ == "工具执行失败: "@ + timeout_text(),
{
    err_result(AppError::tool("bash 命令超时（30s）已终止"))
}

} // verus!
