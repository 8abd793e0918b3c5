use agent_deck::messages::attach_failed_message;
use agent_deck::messages::clipboard_error_message;
use agent_deck::messages::create_failed_message;
use agent_deck::messages::created_message;
use agent_deck::messages::delete_failed_message;
use agent_deck::messages::deleted_message;
use agent_deck::messages::is_success_message;
use agent_deck::messages::skeleton_copied_message;
use agent_deck::messages::skeleton_error_message;
use agent_deck::skeleton::build_prefix;
use agent_deck::skeleton::count_seps;
use agent_deck::skeleton::file_name;
use agent_deck::skeleton::get_ancestor;
use agent_deck::skeleton::get_parent;
use agent_deck::skeleton::is_last_at_depth;
use agent_deck::skeleton::render_tree;
use agent_deck::skeleton::sort_entries;
use agent_deck::tmux::ProcessError;

fn entries(paths: &[(&str, bool)]) -> Vec<(String, bool)> {
    paths.iter().map(|(p, d)| (p.to_string(), *d)).collect()
}

#[test]
fn parent_of_path() {
    assert_eq!(get_parent("a/b/c"), "a/b");
    assert_eq!(get_parent("a/b"), "a");
    assert_eq!(get_parent("a"), "");
    assert_eq!(get_parent(""), "");
}

#[test]
fn ancestor_at_depth() {
    assert_eq!(get_ancestor("a/b/c", 0), "a");
    assert_eq!(get_ancestor("a/b/c", 1), "a/b");
    assert_eq!(get_ancestor("a/b/c", 2), "a/b/c");
    assert_eq!(get_ancestor("a/b/c", 9), "a/b/c");
}

#[test]
fn depth_counts_both_separators() {
    assert_eq!(count_seps("a/b\\c"), 2);
    assert_eq!(count_seps("plain"), 0);
}

#[test]
fn file_name_is_last_component() {
    assert_eq!(file_name("a/b/c.txt"), "c.txt");
    assert_eq!(file_name("top"), "top");
}

#[test]
fn last_sibling_detection() {
    let es = entries(&[("README.md", false), ("src", true), ("src/main.rs", false)]);
    assert!(!is_last_at_depth(&es, 0, 0));
    assert!(is_last_at_depth(&es, 1, 0));
    assert!(is_last_at_depth(&es, 2, 1));
}

#[test]
fn prefix_shows_continuing_siblings() {
    let es = entries(&[
        ("a", true),
        ("a/one.txt", false),
        ("a/two.txt", false),
        ("b", true),
        ("b/three.txt", false),
    ]);
    // Under `a` a later sibling of `a` exists, so its children get a guide.
    assert_eq!(build_prefix(&es, 1, 1), "\u{2502}   ");
    // Under `b` nothing follows, so its child gets blank space.
    assert_eq!(build_prefix(&es, 4, 1), "    ");
    // At depth zero there is no prefix at all.
    assert_eq!(build_prefix(&es, 0, 0), "");
}

#[test]
fn sorting_orders_by_path() {
    let mut es = entries(&[("b", false), ("a/x", false), ("a", true)]);
    sort_entries(&mut es);
    let paths: Vec<&str> = es.iter().map(|e| e.0.as_str()).collect();
    assert_eq!(paths, vec!["a", "a/x", "b"]);
}

#[test]
fn renders_small_tree() {
    let mut es = entries(&[("src/main.rs", false), ("README.md", false), ("src", true)]);
    sort_entries(&mut es);
    let tree = render_tree("proj", &es);
    assert_eq!(
        tree,
        "proj/\n\
         \u{251c}\u{2500}\u{2500} README.md\n\
         \u{2514}\u{2500}\u{2500} src/\n\
         \u{0020}   \u{2514}\u{2500}\u{2500} main.rs\n"
    );
}

#[test]
fn renders_empty_tree() {
    let es = entries(&[]);
    assert_eq!(render_tree("proj", &es), "proj/\n");
}

#[test]
fn executor_messages_are_exact() {
    assert_eq!(created_message("w"), "Session 'w' created");
    assert_eq!(deleted_message(), "Session deleted");
    assert_eq!(
        create_failed_message(&ProcessError::CommandFailed("x".into())),
        "Failed to create: x"
    );
    assert_eq!(
        delete_failed_message(&ProcessError::SessionNotFound),
        "Failed to delete: Session created but not found"
    );
    assert_eq!(attach_failed_message("gone"), "Failed to attach: gone");
    assert_eq!(skeleton_copied_message(), "Skeleton copied to clipboard!");
    assert_eq!(clipboard_error_message("denied"), "Clipboard error: denied");
    assert_eq!(skeleton_error_message("walk failed"), "Skeleton error: walk failed");
}

#[test]
fn success_styling_matches_on_content() {
    assert!(is_success_message("Skeleton copied to clipboard!"));
    assert!(is_success_message("great success"));
    assert!(!is_success_message("Failed to create: boom"));
    assert!(!is_success_message("Session deleted"));
}
