use deepseek_app_lib::error::AppError;
use deepseek_app_lib::tools::{
    all_tools, arg_from_found, bash_result, bash_timeout_result, edit_done_result,
    edit_missing_result, err_result, not_dir_error, payload_json_quoted, read_file_result,
    replace_first, resolve_for_write, resolve_in_workspace, str_arg, str_arg_or_empty, tool_plan, workspace_target,
    write_file_result, ToolCtx, ToolPlan, ToolResult,
};

fn ctx(allow_bash: bool) -> ToolCtx {
    ToolCtx { workspace_dir: "/tmp/ws".to_string(), allow_bash }
}

fn serde_payload(ok: bool, output: &str) -> String {
    let mut m = serde_json::Map::new();
    m.insert("ok".to_string(), serde_json::Value::Bool(ok));
    let key = if ok { "output" } else { "error" };
    m.insert(key.to_string(), serde_json::Value::String(output.to_string()));
    serde_json::to_string(&serde_json::Value::Object(m)).unwrap()
}

#[test]
fn write_read_edit_flow() {
    // The file system is played by a string here; the library decides what is
    // written, what is read back and what each call reports.
    let args = r#"{"path": "a.txt", "content": "hello world"}"#;
    let path = str_arg(args, "path").unwrap();
    let content = str_arg(args, "content").unwrap();
    let full = resolve_for_write(
        Ok("/tmp/ws".into()),
        &path,
        None,
        Some(("/tmp/ws".into(), "a.txt".into())),
    )
    .unwrap();
    assert_eq!(full, "/tmp/ws/a.txt");
    let r = write_file_result(&content, &full);
    assert!(r.ok, "{}", r.output);
    assert_eq!(r.output, "已写入 11 字节到 /tmp/ws/a.txt");
    let mut file = content.clone();
    // read
    let r = read_file_result(&file);
    assert!(r.ok);
    assert_eq!(r.output, "hello world");
    // edit
    let args = r#"{"path": "a.txt", "old": "world", "new": "deepseek"}"#;
    let old = str_arg(args, "old").unwrap();
    let new = str_arg(args, "new").unwrap();
    file = replace_first(&file, &old, &new).unwrap();
    let r = edit_done_result(&old);
    assert!(r.ok);
    assert_eq!(r.output, "已替换 1 处匹配（5 处替换前内容）");
    let r = read_file_result(&file);
    assert_eq!(r.output, "hello deepseek");
}

#[test]
fn path_escape_is_blocked() {
    // ../../etc/passwd exists and canonicalizes outside the workspace.
    let r = match resolve_in_workspace(
        Ok("/tmp/ws".into()),
        "../../etc/passwd",
        Some("/etc/passwd".into()),
        None,
    ) {
        Ok(p) => panic!("expected error, got ok: {p}"),
        Err(e) => err_result(e),
    };
    assert!(!r.ok, "expected error, got ok=true: {}", r.output);
    assert!(
        r.output.contains("越界") || r.output.contains("不存在"),
        "expected sandbox rejection, got: {}",
        r.output
    );
}

#[test]
fn sandbox_decisions() {
    let base = || -> Result<String, String> { Ok("/tmp/ws".into()) };
    // Missing target whose parent is outside.
    assert_eq!(
        resolve_in_workspace(base(), "../x", None, Some("/tmp".into())),
        Err(AppError::Tool("路径越界（不允许访问工作目录之外）：../x".into()))
    );
    // New folders below the workspace are fine; `..` below the last
    // existing folder is not.
    assert_eq!(
        resolve_for_write(base(), "newdir/a.txt", None, Some(("/tmp/ws".into(), "newdir/a.txt".into()))),
        Ok("/tmp/ws/newdir/a.txt".to_string())
    );
    // Reading a file in a missing folder is refused as a missing path.
    assert_eq!(
        resolve_in_workspace(base(), "newdir/a.txt", None, None),
        Err(AppError::Tool("路径无效或不存在: newdir/a.txt".into()))
    );
    assert_eq!(
        resolve_for_write(base(), "../x", None, Some(("/tmp".into(), "x".into()))),
        Err(AppError::Tool("路径越界（不允许访问工作目录之外）：../x".into()))
    );
    assert_eq!(
        resolve_for_write(
            base(),
            "newdir/../../etc/x",
            None,
            Some(("/tmp/ws".into(), "newdir/../../etc/x".into()))
        ),
        Err(AppError::Tool("路径越界（不允许访问工作目录之外）：newdir/../../etc/x".into()))
    );
    // Missing target without any readable ancestor.
    assert_eq!(
        resolve_in_workspace(base(), "no/such/dir/f", None, None),
        Err(AppError::Tool("路径无效或不存在: no/such/dir/f".into()))
    );
    // Existing target inside.
    assert_eq!(
        resolve_in_workspace(base(), "sub/../a.txt", Some("/tmp/ws/a.txt".into()), None),
        Ok("/tmp/ws/a.txt".to_string())
    );
    // A sibling directory sharing the prefix is outside.
    assert!(resolve_in_workspace(base(), "../ws2/f", Some("/tmp/ws2/f".into()), None).is_err());
    // A blank path is the workspace itself.
    assert_eq!(resolve_in_workspace(base(), " ", Some("/tmp/ws".into()), None), Ok("/tmp/ws".into()));
    assert_eq!(workspace_target("/tmp/ws", ""), "/tmp/ws");
    // The workspace itself cannot be resolved.
    assert_eq!(
        resolve_in_workspace(Err("denied".into()), "a", None, None),
        Err(AppError::Tool("无法解析工作目录: denied".into()))
    );
}

#[test]
fn bash_blocked_by_default() {
    match tool_plan("bash", &ctx(false)) {
        ToolPlan::Answer(r) => {
            assert!(!r.ok);
            assert!(r.output.contains("禁用"));
        }
        _ => panic!("bash must be refused"),
    }
}

#[test]
fn bash_runs_when_allowed() {
    assert!(matches!(tool_plan("bash", &ctx(true)), ToolPlan::Bash));
    // `echo hi` printed "hi\n" and exited with 0.
    let r = bash_result("hi\n", "", true, Some(0));
    assert!(r.ok, "{}", r.output);
    assert!(r.output.contains("hi"));
}

#[test]
fn tool_plan_dispatch() {
    assert!(matches!(tool_plan("read_file", &ctx(false)), ToolPlan::ReadFile));
    assert!(matches!(tool_plan("write_file", &ctx(false)), ToolPlan::WriteFile));
    assert!(matches!(tool_plan("edit_file", &ctx(false)), ToolPlan::EditFile));
    assert!(matches!(tool_plan("list_dir", &ctx(false)), ToolPlan::ListDir));
    match tool_plan("rm_rf", &ctx(true)) {
        ToolPlan::Answer(r) => {
            assert!(!r.ok);
            assert_eq!(r.output, "未知工具: rm_rf");
        }
        _ => panic!("unknown tool must be refused"),
    }
}

#[test]
fn tool_schemas_respect_flag() {
    let with_bash = all_tools(true);
    assert!(with_bash.iter().any(|t| t.name == "bash"));
    let without = all_tools(false);
    assert!(!without.iter().any(|t| t.name == "bash"));
    let names: Vec<&str> = without.iter().map(|t| t.name.as_str()).collect();
    assert_eq!(names, vec!["read_file", "write_file", "edit_file", "list_dir"]);
    assert_eq!(with_bash[4].parameters.required, vec!["command".to_string()]);
}

#[test]
fn bash_reports() {
    assert_eq!(bash_result("", "", true, Some(0)).output, "(无输出)");
    let r = bash_result("out", "err", false, Some(2));
    assert!(!r.ok);
    assert_eq!(r.output, "退出码 2: out\n[stderr] err");
    assert_eq!(bash_result("", "boom", false, None).output, "退出码 -1: [stderr] boom");
    let long = "y".repeat(20005);
    assert_eq!(bash_result(&long, "", true, Some(0)).output.chars().count(), 20000);
    let t = bash_timeout_result();
    assert!(!t.ok);
    assert_eq!(t.output, "工具执行失败: bash 命令超时（30s）已终止");
}

#[test]
fn read_truncates_long_files() {
    // 100 001 three-byte characters: 33 333 of them fit in 100 000 bytes.
    let long = "字".repeat(100_001);
    let r = read_file_result(&long);
    assert!(r.ok);
    assert!(r.output.ends_with("\n\n...(内容超过 100000 字节，已截断)"));
    assert_eq!(r.output.chars().take_while(|c| *c == '字').count(), 33_333);
    // 100 000 copies of '中' are 300 000 bytes: cut too.
    let big = "中".repeat(100_000);
    let r = read_file_result(&big);
    let kept: String = r.output.chars().take_while(|c| *c == '中').collect();
    assert!(kept.len() <= 100_000);
    assert_eq!(kept.len(), 99_999);
    // Exactly 100 000 bytes are returned whole; one more byte is cut.
    assert_eq!(read_file_result(&"a".repeat(100_000)).output.len(), 100_000);
    let r = read_file_result(&"a".repeat(100_001));
    assert_eq!(r.output.chars().take_while(|c| *c == 'a').count(), 100_000);
}

#[test]
fn edits_replace_the_first_match_only() {
    assert_eq!(replace_first("a-b-a", "a", "x").as_deref(), Some("x-b-a"));
    assert_eq!(replace_first("abc", "zz", "x"), None);
    assert_eq!(replace_first("abc", "", "x").as_deref(), Some("xabc"));
    let r = edit_missing_result("/tmp/ws/a.txt");
    assert!(!r.ok);
    assert_eq!(r.output, "edit_file 失败：在 /tmp/ws/a.txt 中未找到要替换的文本");
    assert_eq!(err_result(not_dir_error("/tmp/ws/f")).output, "工具执行失败: 不是目录: /tmp/ws/f");
}

#[test]
fn arguments_from_json_text() {
    assert_eq!(
        str_arg(r#"{"path": 3}"#, "path"),
        Err(AppError::Tool("缺少参数 'path'".into()))
    );
    // Text that is not JSON counts as {"raw": text}.
    assert_eq!(str_arg("not json", "raw"), Ok("not json".to_string()));
    assert_eq!(str_arg("not json", "path"), Err(AppError::Tool("缺少参数 'path'".into())));
    assert_eq!(str_arg_or_empty("{}", "path"), "");
    assert_eq!(arg_from_found(Some(Some("v".into())), "ignored", "k"), Ok("v".to_string()));
    assert_eq!(arg_from_found(None, "raw text", "raw"), Ok("raw text".to_string()));
}

#[test]
fn payload_json_matches_serde_json() {
    for (ok, out) in [(true, "hello \"quoted\"\n"), (false, "错误: x\\y"), (true, "")] {
        let r = ToolResult { ok, output: out.to_string() };
        assert_eq!(r.to_payload_json(), serde_payload(ok, out));
    }
    assert_eq!(payload_json_quoted(false, "\"e\""), "{\"error\":\"e\",\"ok\":false}");
}
