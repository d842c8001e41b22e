use deepseek_app_lib::agent::{AgentOutput, StoredTool};
use deepseek_app_lib::deepseek::{msg_assistant, msg_user};
use deepseek_app_lib::error::AppError;
use deepseek_app_lib::sessions::{
    derive_title, session_file_name, sort_by_update_desc, SessionFile, SessionMeta, SessionStore,
};

fn meta(id: &str, updated: &str) -> SessionMeta {
    SessionMeta {
        id: id.into(),
        title: String::new(),
        created_at: "2024-01-01T00:00:00+00:00".into(),
        updated_at: updated.into(),
    }
}

#[test]
fn titles_are_trimmed_and_cut_at_thirty_characters() {
    assert_eq!(derive_title("  你好 DeepSeek  "), "你好 DeepSeek");
    let long = "一".repeat(31);
    assert_eq!(derive_title(&long), format!("{}…", "一".repeat(30)));
    assert_eq!(derive_title(&"a".repeat(30)), "a".repeat(30));
}

#[test]
fn first_user_message_names_the_session() {
    let mut sf = SessionFile::new_at("s1".into(), "t0");
    sf.record_user_at("你好 DeepSeek", "m1".into(), "t1".into(), "t2".into());
    assert_eq!(sf.title, "你好 DeepSeek");
    assert_eq!(sf.updated_at, "t2");
    assert_eq!(sf.messages.len(), 1);
    assert_eq!(sf.messages[0].role, "user");
    assert_eq!(sf.messages[0].created_at, "t1");
    sf.record_user_at("second", "m2".into(), "t3".into(), "t4".into());
    assert_eq!(sf.title, "你好 DeepSeek");
    assert_eq!(sf.messages.len(), 2);
    assert_eq!(sf.created_at, "t0");
}

#[test]
fn assistant_turn_replaces_the_conversation() {
    let mut sf = SessionFile::new_at("s1".into(), "t0");
    sf.record_user("hello");
    let out = AgentOutput {
        content: "hi".into(),
        reasoning: "r".into(),
        tools: vec![StoredTool {
            id: "c1".into(),
            name: "read_file".into(),
            args: "{}".into(),
            status: "done".into(),
            output: Some("x".into()),
        }],
        api_messages: vec![msg_user("hello"), msg_assistant("hi")],
    };
    sf.record_assistant(&out, false);
    assert_eq!(sf.messages[0].id.chars().count(), 36);
    assert_eq!(sf.messages[1].id.chars().count(), 36);
    assert_eq!(sf.messages.len(), 2);
    assert_eq!(sf.messages[1].role, "assistant");
    assert_eq!(sf.messages[1].tools.len(), 1);
    assert_eq!(sf.api_messages, out.api_messages);
    let failed = AgentOutput {
        content: String::new(),
        reasoning: String::new(),
        tools: Vec::new(),
        api_messages: Vec::new(),
    };
    sf.record_assistant(&failed, true);
    assert!(sf.messages[2].is_error);
    assert!(sf.api_messages.is_empty());
}

#[test]
fn sessions_list_newest_first_and_ties_keep_order() {
    let metas = vec![meta("a", "2024-01-02"), meta("b", "2024-03-01"), meta("c", "2024-01-02")];
    let sorted = sort_by_update_desc(&metas);
    let ids: Vec<&str> = sorted.iter().map(|m| m.id.as_str()).collect();
    assert_eq!(ids, vec!["b", "a", "c"]);
}

#[test]
fn session_files_and_paths() {
    assert!(session_file_name("abc.json"));
    assert!(!session_file_name(".json"));
    assert!(!session_file_name("abc.json.bak"));
    assert!(!session_file_name("abc.JSON"));
    let store = SessionStore::new("/data");
    assert_eq!(store.dir(), "/data/sessions");
    assert_eq!(store.path("s1"), "/data/sessions/s1.json");
    let created = SessionFile::create();
    assert_eq!(created.id.chars().count(), 36);
    assert_eq!(created.created_at, created.updated_at);
    assert!(created.messages.is_empty());
    assert!(created.title.is_empty());
    assert_eq!(created.meta().id, created.id);
}

#[test]
fn turn_outcomes_are_recorded() {
    let mut sf = SessionFile::new_at("s1".into(), "t0");
    sf.record_user("q");
    let ok = AgentOutput {
        content: "a".into(),
        reasoning: String::new(),
        tools: Vec::new(),
        api_messages: vec![msg_user("q"), msg_assistant("a")],
    };
    sf.record_outcome(&Ok(ok));
    assert_eq!(sf.messages[1].content, "a");
    assert!(!sf.messages[1].is_error);
    assert_eq!(sf.api_messages.len(), 2);
    sf.record_outcome(&Err(AppError::Network("down".into())));
    assert_eq!(sf.messages.len(), 3);
    assert!(sf.messages[2].is_error);
    assert_eq!(sf.messages[2].content, "");
    assert!(sf.api_messages.is_empty());
}
