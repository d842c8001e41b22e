use deepseek_app_lib::order::sorted_order;
use deepseek_app_lib::paths::{is_within, join_path, path_file_name};

fn keys(v: &[&str]) -> Vec<Vec<char>> {
    v.iter().map(|s| s.chars().collect()).collect()
}

#[test]
fn joining_follows_unix_path_join() {
    assert_eq!(join_path("/a", "b"), "/a/b");
    assert_eq!(join_path("/a/", "b"), "/a/b");
    assert_eq!(join_path("/a", "/abs"), "/abs");
    assert_eq!(join_path("", "b"), "b");
}

#[test]
fn containment_is_by_component() {
    assert!(is_within("/tmp/ws", "/tmp/ws"));
    assert!(is_within("/tmp/ws/a/b", "/tmp/ws"));
    assert!(!is_within("/tmp/ws2", "/tmp/ws"));
    assert!(!is_within("/tmp", "/tmp/ws"));
    assert!(is_within("/etc", "/"));
}

#[test]
fn file_names_follow_path_file_name() {
    assert_eq!(path_file_name("/tmp/legacy").as_deref(), Some("legacy"));
    assert_eq!(path_file_name("/tmp/legacy/").as_deref(), Some("legacy"));
    assert_eq!(path_file_name("/"), None);
    assert_eq!(path_file_name("a/.."), None);
    assert_eq!(path_file_name("name").as_deref(), Some("name"));
}

#[test]
fn stable_sort_by_string_keys() {
    let k = keys(&["b", "a", "b", "ab", ""]);
    assert_eq!(sorted_order(&k, false), vec![4, 1, 3, 0, 2]);
    assert_eq!(sorted_order(&k, true), vec![0, 2, 3, 1, 4]);
    // Character order is code point order, as String comparison is.
    let k = keys(&["é", "z", "Z"]);
    assert_eq!(sorted_order(&k, false), vec![2, 1, 0]);
}
