use ravel_lite::pivot::{PushFacts, Stack};
use ravel_lite::state::{run_push_plan, run_set_phase};

fn facts(target_is_dir: bool, target_has_phase_md: bool) -> PushFacts {
    PushFacts { canonical: vec![], target_is_dir, target_has_phase_md }
}

#[test]
fn push_plan_creates_stack_with_root_and_target_when_absent() {
    let stack = run_push_plan("/t/coord", "/t/child", Some("because".into()), true, None, &facts(true, true)).unwrap();
    assert_eq!(stack.frames.len(), 2, "expected [root, target]");
    assert_eq!(stack.frames[0].path, "/t/coord");
    assert_eq!(stack.frames[1].path, "/t/child");
    assert_eq!(stack.frames[1].reason.as_deref(), Some("because"));
    assert!(stack.frames[1].pushed_at.is_some(), "target frame must carry a pushed_at timestamp");
}

#[test]
fn push_plan_appends_to_existing_multi_frame_stack() {
    let first = run_push_plan("/t/coord", "/t/child-1", None, true, None, &facts(true, true)).unwrap();
    let second = run_push_plan("/t/coord", "/t/child-2", Some("second".into()), true, Some(first), &facts(true, true))
        .unwrap();
    let paths: Vec<_> = second.frames.iter().map(|f| f.path.as_str()).collect();
    assert_eq!(paths, vec!["/t/coord", "/t/child-1", "/t/child-2"]);
    assert_eq!(second.frames[2].reason.as_deref(), Some("second"));
}

#[test]
fn push_plan_rejects_cycle_when_target_already_in_stack() {
    let first = run_push_plan("/t/coord", "/t/child", None, true, None, &facts(true, true)).unwrap();
    let err = run_push_plan("/t/coord", "/t/child", None, true, Some(first.clone()), &facts(true, true)).unwrap_err();
    assert!(err.to_lowercase().contains("cycle"));
    assert_eq!(first.frames.len(), 2, "failed push must not alter the stack");
}

#[test]
fn push_plan_rejects_target_without_phase_md() {
    let err = run_push_plan("/t/coord", "/t/not-a-plan", None, true, None, &facts(true, false)).unwrap_err();
    assert!(err.contains("phase.md"));
}

#[test]
fn push_plan_rejects_when_coordinator_has_no_phase_md() {
    let err = run_push_plan("/t/coord", "/t/child", None, false, Some(Stack::default()), &facts(true, true)).unwrap_err();
    assert!(err.contains("phase.md"));
    assert_eq!(
        err,
        "phase.md not found at /t/coord/phase.md. push-plan refuses to operate on a non-plan directory."
    );
}

#[test]
fn set_phase_rejects_missing_phase_md() {
    let msg = run_set_phase("/t/plan", "reflect", false).unwrap_err();
    assert!(msg.contains("phase.md"), "error must name phase.md: {msg}");
}

#[test]
fn set_phase_writes_valid_llm_phase_to_phase_md() {
    assert_eq!(run_set_phase("/t/plan", "analyse-work", true), Ok("/t/plan/phase.md".to_string()));
}

#[test]
fn set_phase_rejects_typo_and_lists_valid_phases() {
    let msg = run_set_phase("/t/plan", "analyze-work", true).unwrap_err();
    assert!(msg.contains("analyze-work"), "error must include the bad input: {msg}");
    for valid in [
        "work",
        "analyse-work",
        "reflect",
        "dream",
        "triage",
        "git-commit-work",
        "git-commit-reflect",
        "git-commit-dream",
        "git-commit-triage",
    ] {
        assert!(msg.contains(valid), "error must list '{valid}': {msg}");
    }
}
