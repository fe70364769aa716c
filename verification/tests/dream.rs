use ravel_lite::dream::{
    ancestors_of, count_words, dream_baseline_text, find_project_root, git_marker, nearest_marked, should_dream,
};

#[test]
fn returns_false_when_no_memory() {
    assert!(!should_dream(None, Some("10"), 1500));
}

#[test]
fn returns_false_when_no_baseline() {
    assert!(!should_dream(Some("hello world"), None, 1500));
}

#[test]
fn returns_false_within_headroom() {
    let memory = "word ".repeat(100);
    assert!(!should_dream(Some(&memory), Some("50"), 1500));
}

#[test]
fn returns_true_beyond_headroom() {
    let memory = "word ".repeat(2000);
    assert!(should_dream(Some(&memory), Some("100"), 1500));
}

#[test]
fn unparseable_baseline_never_dreams() {
    let memory = "word ".repeat(2000);
    assert!(!should_dream(Some(&memory), Some("lots"), 10));
    assert!(should_dream(Some(&memory), Some(" +100\n"), 10));
}

#[test]
fn update_baseline_writes_word_count() {
    let memory = "word ".repeat(500);
    assert_eq!(dream_baseline_text(&memory), "500");
    assert_eq!(count_words("  a\tb\nc  "), 3);
}

#[test]
fn find_project_root_errors_on_root() {
    let result = find_project_root("/tmp/nonexistent-asdhjkasd", None);
    assert!(result.is_err());
}

#[test]
fn ancestors_run_up_to_the_root() {
    assert_eq!(ancestors_of("/a/b"), vec!["/a/b".to_string(), "/a".to_string(), "/".to_string()]);
    assert_eq!(git_marker("/a/b"), "/a/b/.git");
}

#[test]
fn nearest_marked_takes_the_first_yes() {
    let chain = vec!["/a/b".to_string(), "/a".to_string(), "/".to_string()];
    assert_eq!(nearest_marked(&chain, &vec![false, true, true]), Some("/a".to_string()));
    assert_eq!(nearest_marked(&chain, &vec![false, false]), None);
    assert_eq!(nearest_marked(&chain, &vec![false, false, false]), None);
    assert_eq!(nearest_marked(&chain, &vec![true]), Some("/a/b".to_string()));
}
