use deepseek_app_lib::error::AppError;
use deepseek_app_lib::settings::{
    resolve_data_dir, Settings, SettingsStore, DEFAULT_BASE_URL, DEFAULT_MODEL,
};

fn base() -> Settings {
    Settings::defaults_with(Some("/home/u".to_string()))
}

#[test]
fn settings_defaults_when_missing() {
    let s = Settings::defaults();
    assert_eq!(s.api_key, "");
    assert_eq!(s.base_url, DEFAULT_BASE_URL);
    assert_eq!(s.model, DEFAULT_MODEL);
}

#[test]
fn defaults_store_no_key_and_take_home_as_workspace() {
    let s = Settings::defaults_with(Some("/home/u".to_string()));
    assert_eq!(s.api_key, "");
    assert_eq!(s.workspace_dir, "/home/u");
    assert_eq!(s.max_tool_rounds, 20);
    assert!(!s.allow_bash);
    assert!(s.enabled_skills.is_empty());
    let s = Settings::defaults_with(None);
    assert_eq!(s.api_key, "");
    assert_eq!(s.workspace_dir, ".");
}

#[test]
fn effective_key_prefers_env_over_file() {
    let s = Settings { api_key: "file-key".into(), ..base() };
    // DEEPSEEK_API_KEY=env-key, no keychain entry.
    assert_eq!(s.effective_api_key(Some("env-key"), None), "env-key");
}

#[test]
fn effective_key_falls_back_to_file_without_env() {
    let s = Settings { api_key: "file-key".into(), ..base() };
    // DEEPSEEK_API_KEY unset, no keychain entry.
    assert_eq!(s.effective_api_key(None, None), "file-key");
}

#[test]
fn effective_key_uses_keychain_before_file_and_ignores_blank_env() {
    let s = Settings { api_key: "file-key".into(), ..base() };
    assert_eq!(s.effective_api_key(Some("  "), Some("chain-key".to_string())), "chain-key");
    assert_eq!(s.effective_api_key(Some("env"), Some("chain-key".to_string())), "env");
    assert_eq!(s.effective_api_key(Some(""), None), "file-key");
}

#[test]
fn effective_model_maps_legacy_ids_to_v4() {
    let s = Settings { model: "deepseek-chat".into(), ..base() };
    assert_eq!(s.effective_model(), "deepseek-v4-flash");
    let s = Settings { model: "deepseek-reasoner".into(), ..base() };
    assert_eq!(s.effective_model(), "deepseek-v4-pro");
    // Unknown / already-current ids pass through untouched.
    let s = Settings { model: "deepseek-v4-flash".into(), ..base() };
    assert_eq!(s.effective_model(), "deepseek-v4-flash");
    let s = Settings { model: "some-future-model".into(), ..base() };
    assert_eq!(s.effective_model(), "some-future-model");
}

#[test]
fn mapping_a_model_twice_is_mapping_it_once() {
    for m in ["deepseek-chat", "deepseek-reasoner", "deepseek-v4-pro", "x"] {
        let once = Settings { model: m.into(), ..base() }.effective_model();
        let twice = Settings { model: once.clone(), ..base() }.effective_model();
        assert_eq!(once, twice);
    }
}

#[test]
fn key_migration_and_removal() {
    let s = Settings { api_key: "sk-legacy".into(), ..base() };
    assert_eq!(s.key_to_migrate().as_deref(), Some("sk-legacy"));
    let blank = Settings { api_key: " ".into(), ..base() };
    assert_eq!(blank.key_to_migrate(), None);
    let stripped = s.without_api_key();
    assert_eq!(stripped.api_key, "");
    assert_eq!(stripped, Settings { api_key: String::new(), ..s.clone() });
}

#[test]
fn workspace_path_is_absolute() {
    let s = Settings { workspace_dir: "/abs/ws".into(), ..base() };
    assert_eq!(s.workspace_path("/cwd"), "/abs/ws");
    let s = Settings { workspace_dir: "rel".into(), ..base() };
    assert_eq!(s.workspace_path("/cwd"), "/cwd/rel");
}

#[test]
fn check_requires_address_and_model() {
    assert_eq!(base().check(), Ok(()));
    let s = Settings { base_url: " ".into(), ..base() };
    assert_eq!(s.check(), Err(AppError::Config("base_url 不能为空".into())));
    let s = Settings { model: "".into(), ..base() };
    assert_eq!(s.check(), Err(AppError::Config("model 不能为空".into())));
}

#[test]
fn data_dir_override_and_platform_default() {
    assert_eq!(resolve_data_dir(Some("/tmp/d"), Some("/plat".into())), "/tmp/d");
    assert_eq!(resolve_data_dir(Some("  "), Some("/plat".into())), "/plat/DeepSeekApp");
    assert_eq!(resolve_data_dir(None, None), "./DeepSeekApp");
    assert_eq!(SettingsStore::new("/data").path(), "/data/settings.json");
}

#[test]
fn a_blank_key_from_the_window_keeps_the_stored_one() {
    let sent = Settings { api_key: " ".into(), model: "m".into(), ..base() };
    let kept = sent.with_key_kept("sk-stored");
    assert_eq!(kept.api_key, "sk-stored");
    assert_eq!(kept.model, "m");
    let sent = Settings { api_key: "sk-new".into(), ..base() };
    assert_eq!(sent.with_key_kept("sk-stored").api_key, "sk-new");
}
