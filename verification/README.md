# deepseek-app-lib

The core of a desktop client for the DeepSeek chat-completions API, written in
Verus: each function carries a contract and is proved against it.

## Layout

- `src/` — the verified library.
  - `agent.rs` — one agent turn as a state machine (prompt stack, streaming
    rounds, tool calls, stop, failure) and the laws of a turn.
  - `deepseek.rs`, `sse.rs`, `toolcalls.rs` — the wire messages, the
    server-sent-event decoder, and the accumulation of streamed tool calls.
  - `tools.rs`, `listing.rs`, `paths.rs` — tool schemas and dispatch, the
    workspace sandbox, tool reports, and the `list_dir` listing.
  - `skills.rs` — `SKILL.md` parsing, the skill list, the skill router.
  - `sessions.rs`, `settings.rs`, `workspaces.rs`, `commands.rs` — sessions,
    settings, the workspace registry, and what the commands decide.
  - `text.rs`, `order.rs` — string functions and a stable sort, with their
    specifications; `error.rs` — the error type.
  - `calls.rs` — the trusted bridges to `serde_json`, `chrono`, `uuid`,
    `dirs` and `std`; each states what it claims.
- `app/` — the shell around the library: HTTP (`reqwest`), files, the OS
  keychain (`keyring`), the shell, and the serde forms of the library's types.
- `tests/` — tests of the library on concrete values.
