use workspace_deps::text::{join_path, same_text, split_glob};

#[test]
fn same_text_compares_characters() {
    assert!(same_text("serde", "serde"));
    assert!(!same_text("serde", "serde_json"));
    assert!(!same_text("serde_json", "serde"));
    assert!(!same_text("a", "b"));
    assert!(same_text("", ""));
    assert!(!same_text("", "a"));
    assert!(same_text("crème", "crème"));
    assert!(!same_text("crème", "creme"));
}

#[test]
fn join_path_puts_one_slash_between() {
    assert_eq!(join_path("/ws", "a"), "/ws/a");
    assert_eq!(join_path("/ws/", "a"), "/ws/a");
    assert_eq!(join_path("ws", "crates/a"), "ws/crates/a");
    assert_eq!(join_path("/ws/a", "Cargo.toml"), "/ws/a/Cargo.toml");
}

#[test]
fn join_path_with_an_empty_side() {
    assert_eq!(join_path("", "a"), "a");
    assert_eq!(join_path("a", ""), "a/");
    assert_eq!(join_path("", ""), "");
}

#[test]
fn join_path_keeps_a_child_that_starts_at_the_root() {
    assert_eq!(join_path("/ws", "/elsewhere/a"), "/elsewhere/a");
    assert_eq!(join_path("", "/a"), "/a");
}

#[test]
fn split_glob_cuts_the_two_last_characters() {
    assert_eq!(split_glob("crates/*"), Some("crates"));
    assert_eq!(split_glob("a/b/*"), Some("a/b"));
    assert_eq!(split_glob("/*"), Some(""));
    assert_eq!(split_glob("données/*"), Some("données"));
}

#[test]
fn split_glob_wants_slash_and_star_at_the_end() {
    assert_eq!(split_glob("crates"), None);
    assert_eq!(split_glob("crates/"), None);
    assert_eq!(split_glob("crates*"), None);
    assert_eq!(split_glob("*"), None);
    assert_eq!(split_glob(""), None);
    assert_eq!(split_glob("crates/*/x"), None);
}
