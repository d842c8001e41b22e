use deepseek_app_lib::workspaces::{Workspace, WorkspaceState, WorkspaceStore};

fn ws(id: &str, name: &str, path: &str) -> Workspace {
    Workspace { id: id.into(), name: name.into(), path: path.into() }
}

#[test]
fn current_workspace_lookup() {
    let state = WorkspaceState {
        current: Some("w2".into()),
        items: vec![ws("w1", "a", "/a"), ws("w2", "b", "/b")],
    };
    assert_eq!(state.current_workspace().map(|w| w.name.as_str()), Some("b"));
    assert_eq!(state.current_path(), Some("/b"));
    let none = WorkspaceState::default();
    assert_eq!(none.current_path(), None);
}

#[test]
fn unknown_current_id_names_no_workspace() {
    let state = WorkspaceState { current: Some("gone".into()), items: vec![ws("w1", "a", "/a")] };
    assert!(state.current_workspace().is_none());
    // The first workspace with the id wins.
    let dup = WorkspaceState {
        current: Some("w".into()),
        items: vec![ws("w", "first", "/1"), ws("w", "second", "/2")],
    };
    assert_eq!(dup.current_path(), Some("/1"));
}

#[test]
fn seeds_first_workspace_from_legacy_dir() {
    let mut state = WorkspaceState::default();
    state.seed_with("/tmp/legacy", Some("/home/u".into()), "id-1".into());
    assert_eq!(state.items.len(), 1);
    assert_eq!(state.items[0].path, "/tmp/legacy");
    assert_eq!(state.items[0].name, "legacy");
    assert_eq!(state.current.as_deref(), Some(state.items[0].id.as_str()));

    // Second launch must not duplicate.
    state.seed_with("/tmp/legacy", Some("/home/u".into()), "id-2".into());
    assert_eq!(state.items.len(), 1);
    assert_eq!(state.items[0].id, "id-1");
}

#[test]
fn seeds_home_when_no_legacy_dir() {
    let mut state = WorkspaceState::default();
    state.seed_with("  ", Some("/home/u".into()), "id".into());
    assert_eq!(state.items.len(), 1);
    assert_eq!(state.items[0].path, "/home/u");
    assert_eq!(state.items[0].name, "u");

    let mut bare = WorkspaceState::default();
    bare.seed_with("", None, "id".into());
    assert_eq!(bare.items[0].path, ".");
    let mut root = WorkspaceState::default();
    root.seed_with("/", None, "id".into());
    assert_eq!(root.items[0].name, "默认工作区");
}

#[test]
fn seeding_on_this_machine_uses_a_fresh_id() {
    let mut state = WorkspaceState::default();
    state.seed("/tmp/legacy");
    assert_eq!(state.items.len(), 1);
    assert_eq!(state.items[0].path, "/tmp/legacy");
    assert_eq!(state.items[0].id.chars().count(), 36);
    assert_eq!(state.current.as_deref(), Some(state.items[0].id.as_str()));
}

#[test]
fn registry_file_location() {
    assert_eq!(WorkspaceStore::new("/data").path(), "/data/workspaces.json");
}
