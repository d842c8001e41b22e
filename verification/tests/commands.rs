use deepseek_app_lib::commands::{agent_config, check_chat_text, models_list};
use deepseek_app_lib::error::AppError;
use deepseek_app_lib::settings::Settings;
use deepseek_app_lib::workspaces::{Workspace, WorkspaceState};

fn settings(model: &str) -> Settings {
    Settings { model: model.into(), workspace_dir: "/legacy".into(), ..Settings::defaults_with(None) }
}

#[test]
fn turn_uses_the_model_in_effect() {
    let cfg = agent_config(&settings("deepseek-chat"), &WorkspaceState::default(), "/data", "/cwd");
    assert_eq!(cfg.model, "deepseek-v4-flash");
    let cfg = agent_config(&settings("other"), &WorkspaceState::default(), "/data", "/cwd");
    assert_eq!(cfg.model, "other");
    assert_eq!(cfg.skill_roots, vec!["/data/skills".to_string()]);
}

#[test]
fn turn_is_sandboxed_in_the_current_workspace() {
    let ws = WorkspaceState {
        current: Some("w2".into()),
        items: vec![
            Workspace { id: "w1".into(), name: "a".into(), path: "/a".into() },
            Workspace { id: "w2".into(), name: "b".into(), path: "/b".into() },
        ],
    };
    let cfg = agent_config(&settings("deepseek-chat"), &ws, "/data", "/cwd");
    assert_eq!(cfg.workspace_dir, "/b");
    // Without a current workspace, the configured one stands.
    let cfg = agent_config(&settings("deepseek-chat"), &WorkspaceState::default(), "/data", "/cwd");
    assert_eq!(cfg.workspace_dir, "/legacy");
    let rel = Settings { workspace_dir: "rel".into(), ..settings("x") };
    assert_eq!(agent_config(&rel, &WorkspaceState::default(), "/data", "/cwd").workspace_dir, "/cwd/rel");
}

#[test]
fn chat_text_must_not_be_blank_and_models_are_listed() {
    assert_eq!(check_chat_text("  "), Err(AppError::Config("消息不能为空".into())));
    assert_eq!(check_chat_text("hi"), Ok(()));
    assert_eq!(models_list().len(), 2);
}
