use ravel_lite::backlog_transitions::{
    backlog_transitions, compute_transitions, render_transitions, BacklogFile, BaselineResult,
    HandoffChange, Status, Task,
};

fn task(id: &str, status: Status) -> Task {
    Task {
        id: id.into(),
        title: format!("Task {id}"),
        category: "core".into(),
        status,
        blocked_reason: None,
        dependencies: vec![],
        description: "desc".into(),
        results: None,
        handoff: None,
    }
}

#[test]
fn empty_baseline_and_current_renders_no_change_marker() {
    let base = BacklogFile::default();
    let curr = BacklogFile::default();
    let t = compute_transitions(&base, &curr);
    let rendered = render_transitions(&t);
    assert_eq!(rendered, "(no backlog changes since baseline)");
}

#[test]
fn status_flip_is_rendered_with_arrow() {
    let base = BacklogFile { tasks: vec![task("foo", Status::NotStarted)] };
    let curr = BacklogFile { tasks: vec![task("foo", Status::Done)] };
    let t = compute_transitions(&base, &curr);
    let rendered = render_transitions(&t);
    assert!(rendered.contains("status flips:"), "missing header: {rendered}");
    assert!(rendered.contains("foo: not_started → done"), "missing line: {rendered}");
}

#[test]
fn results_added_counts_lines() {
    let base = BacklogFile { tasks: vec![task("foo", Status::Done)] };
    let mut with_results = task("foo", Status::Done);
    with_results.results = Some("line one\nline two\nline three".into());
    let curr = BacklogFile { tasks: vec![with_results] };
    let t = compute_transitions(&base, &curr);
    let rendered = render_transitions(&t);
    assert!(rendered.contains("results added:"), "missing header: {rendered}");
    assert!(rendered.contains("foo: 3 line(s)"), "missing line: {rendered}");
}

#[test]
fn results_modified_shows_old_and_new_line_count() {
    let mut base_task = task("foo", Status::Done);
    base_task.results = Some("old\ntext".into());
    let mut curr_task = task("foo", Status::Done);
    curr_task.results = Some("new\ntext\nmore\nlines".into());

    let t = compute_transitions(
        &BacklogFile { tasks: vec![base_task] },
        &BacklogFile { tasks: vec![curr_task] },
    );
    let rendered = render_transitions(&t);
    assert!(rendered.contains("results modified:"), "missing header: {rendered}");
    assert!(rendered.contains("foo: 2 → 4 line(s)"), "missing line: {rendered}");
}

#[test]
fn added_task_renders_with_plus_marker() {
    let base = BacklogFile::default();
    let curr = BacklogFile { tasks: vec![task("new-id", Status::NotStarted)] };
    let t = compute_transitions(&base, &curr);
    let rendered = render_transitions(&t);
    assert!(rendered.contains("tasks added:"), "missing header: {rendered}");
    assert!(rendered.contains("+ new-id: Task new-id"), "missing line: {rendered}");
}

#[test]
fn deleted_task_renders_with_minus_marker() {
    let base = BacklogFile { tasks: vec![task("old-id", Status::Done)] };
    let curr = BacklogFile::default();
    let t = compute_transitions(&base, &curr);
    let rendered = render_transitions(&t);
    assert!(rendered.contains("tasks deleted:"), "missing header: {rendered}");
    assert!(rendered.contains("- old-id: Task old-id"), "missing line: {rendered}");
}

#[test]
fn dependency_changes_are_reported() {
    let mut base_task = task("foo", Status::NotStarted);
    base_task.dependencies = vec!["dep-a".into()];
    let mut curr_task = task("foo", Status::NotStarted);
    curr_task.dependencies = vec!["dep-a".into(), "dep-b".into()];
    let t = compute_transitions(
        &BacklogFile { tasks: vec![base_task] },
        &BacklogFile { tasks: vec![curr_task] },
    );
    let rendered = render_transitions(&t);
    assert!(rendered.contains("dependency changes:"), "missing header: {rendered}");
    assert!(rendered.contains("foo:"), "missing id line: {rendered}");
}

#[test]
fn handoff_added_is_classified_correctly() {
    let base_task = task("foo", Status::Done);
    let mut curr_task = task("foo", Status::Done);
    curr_task.handoff = Some("design decision".into());
    let t = compute_transitions(
        &BacklogFile { tasks: vec![base_task] },
        &BacklogFile { tasks: vec![curr_task] },
    );
    assert_eq!(t.handoff_changes, vec![("foo".into(), HandoffChange::Added)]);
}

#[test]
fn empty_baseline_sha_yields_explanatory_placeholder() {
    let current: Result<BacklogFile, String> = Ok(BacklogFile::default());
    let out = backlog_transitions("", &current, &BaselineResult::Missing);
    assert!(out.contains("no baseline SHA"), "expected placeholder, got: {out}");
}

#[test]
fn missing_baseline_file_renders_additions_only() {
    let current: Result<BacklogFile, String> =
        Ok(BacklogFile { tasks: vec![task("foo", Status::NotStarted)] });
    let rendered = backlog_transitions("abc123", &current, &BaselineResult::Missing);
    assert!(rendered.contains("no baseline found"), "expected first-cycle marker: {rendered}");
    assert!(rendered.contains("+ foo: Task foo"), "expected additions-only block: {rendered}");
}

#[test]
fn found_baseline_renders_the_diff() {
    let current: Result<BacklogFile, String> = Ok(BacklogFile { tasks: vec![task("foo", Status::Done)] });
    let baseline = BaselineResult::Found(BacklogFile { tasks: vec![task("foo", Status::NotStarted)] });
    let rendered = backlog_transitions("abc123", &current, &baseline);
    assert!(rendered.contains("foo: not_started → done"), "expected status flip, got: {rendered}");
}

#[test]
fn unreadable_current_backlog_is_reported() {
    let current: Result<BacklogFile, String> = Err("boom".into());
    let rendered = backlog_transitions("abc123", &current, &BaselineResult::Missing);
    assert_eq!(rendered, "(failed to read current backlog.yaml: boom)");
}

#[test]
fn baseline_lookup_error_is_reported() {
    let current: Result<BacklogFile, String> = Ok(BacklogFile::default());
    let rendered = backlog_transitions("abc123", &current, &BaselineResult::Error("no such ref".into()));
    assert_eq!(rendered, "(baseline lookup failed: no such ref)");
}

#[test]
fn identical_backlogs_render_no_change_marker() {
    let b = BacklogFile { tasks: vec![task("a", Status::Blocked), task("b", Status::InProgress)] };
    let t = compute_transitions(&b, &b.clone());
    assert_eq!(render_transitions(&t), "(no backlog changes since baseline)");
}
