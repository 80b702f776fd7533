//! Dashboard agent helpers: worktree and project extraction, staleness, and
//! duration formatting.

use workmux::{elapsed_secs, extract_project_name, extract_worktree_name, format_duration, is_stale};

#[test]
fn test_extract_worktree_name_with_prefix() {
    let (name, is_main) = extract_worktree_name("workmux:fix-bug", "workmux:");
    assert_eq!(name, "fix-bug");
    assert!(!is_main);
}

#[test]
fn test_extract_worktree_name_main() {
    let (name, is_main) = extract_worktree_name("some-window", "workmux:");
    assert_eq!(name, "main");
    assert!(is_main);
}

#[test]
fn test_extract_project_name_worktrees() {
    assert_eq!(extract_project_name("/home/user/myproject__worktrees/fix-bug"), "myproject");
}

#[test]
fn test_extract_project_name_fallback() {
    assert_eq!(extract_project_name("/home/user/myproject"), "myproject");
}

#[test]
fn test_is_stale_true() {
    assert!(is_stale(Some(100), 60, 200));
}

#[test]
fn test_is_stale_false() {
    assert!(!is_stale(Some(150), 60, 200));
}

#[test]
fn test_is_stale_none() {
    assert!(!is_stale(None, 60, 200));
}

#[test]
fn test_elapsed_secs() {
    assert_eq!(elapsed_secs(Some(100), 200), Some(100));
    assert_eq!(elapsed_secs(None, 200), None);
}

#[test]
fn test_format_duration() {
    assert_eq!(format_duration(0), "00:00:00");
    assert_eq!(format_duration(61), "00:01:01");
    assert_eq!(format_duration(3661), "01:01:01");
}

#[test]
fn extract_project_name_prefers_rightmost_worktrees_component() {
    assert_eq!(extract_project_name("/u/foo__worktrees/feat"), "foo");
}

#[test]
fn format_duration_hours_beyond_two_digits() {
    assert_eq!(format_duration(360000), "100:00:00");
}
