use ravel_lite::pivot::{
    canonical_path, decide_after_cycle, decide_after_work, push_timestamp, push_timestamp_at, validate_push, Frame,
    NextAfterCycle, NextAfterWork, PushFacts, Stack,
};
use ravel_lite::types::LlmPhase;

fn frame(p: &str) -> Frame {
    Frame { path: p.to_string(), pushed_at: None, reason: None }
}

fn facts_ok() -> PushFacts {
    PushFacts { canonical: vec![], target_is_dir: true, target_has_phase_md: true }
}

#[test]
fn decide_after_work_covers_all_four_cases() {
    assert_eq!(decide_after_work(LlmPhase::Reflect, false, None), NextAfterWork::ContinueNormalCycle);
    assert_eq!(decide_after_work(LlmPhase::Reflect, true, Some(frame("/c"))), NextAfterWork::PushAfterCycle(frame("/c")));
    assert_eq!(decide_after_work(LlmPhase::Work, true, Some(frame("/c"))), NextAfterWork::PushImmediately(frame("/c")));
    assert_eq!(
        decide_after_work(LlmPhase::Work, false, None),
        NextAfterWork::Error("phase did not advance and no pivot was requested".into())
    );
    assert_eq!(
        decide_after_work(LlmPhase::Work, true, None),
        NextAfterWork::Error("stack_grew=true but new_top=None — caller bug".into())
    );
}

#[test]
fn decide_after_cycle_pushes_pops_or_continues() {
    assert_eq!(decide_after_cycle(1, true, Some(frame("/c"))), NextAfterCycle::Push(frame("/c")));
    assert_eq!(decide_after_cycle(2, false, None), NextAfterCycle::Pop);
    assert_eq!(decide_after_cycle(1, false, None), NextAfterCycle::Continue);
    assert_eq!(decide_after_cycle(3, true, None), NextAfterCycle::Pop);
}

#[test]
fn validate_push_enforces_depth_cap() {
    let stack = Stack { frames: (0..5).map(|i| frame(&format!("/p{i}"))).collect() };
    let err = validate_push(&stack, &frame("/new"), &facts_ok()).unwrap_err();
    assert_eq!(err, "Max stack depth 5 exceeded; attempted push target: /new");
}

#[test]
fn validate_push_detects_cycles_through_canonical_paths() {
    let stack = Stack { frames: vec![frame("/root"), frame("/a/./child")] };
    let facts = PushFacts {
        canonical: vec![("/a/./child".into(), "/a/child".into()), ("/a/child".into(), "/a/child".into())],
        target_is_dir: true,
        target_has_phase_md: true,
    };
    let err = validate_push(&stack, &frame("/a/child"), &facts).unwrap_err();
    assert_eq!(err, "Cycle detected: /a/child already in stack");
}

#[test]
fn validate_push_requires_a_plan_directory() {
    let stack = Stack { frames: vec![frame("/root")] };
    let no_dir = PushFacts { canonical: vec![], target_is_dir: false, target_has_phase_md: false };
    assert_eq!(
        validate_push(&stack, &frame("/x"), &no_dir).unwrap_err(),
        "Invalid pivot target: /x does not exist or is not a directory"
    );
    let no_md = PushFacts { canonical: vec![], target_is_dir: true, target_has_phase_md: false };
    assert_eq!(validate_push(&stack, &frame("/x"), &no_md).unwrap_err(), "Invalid pivot target: /x has no phase.md");
    assert_eq!(validate_push(&stack, &frame("/x"), &facts_ok()), Ok(()));
}

#[test]
fn canonical_path_falls_back_to_the_path() {
    let t = vec![("a".to_string(), "/abs/a".to_string())];
    assert_eq!(canonical_path(&t, "a"), "/abs/a");
    assert_eq!(canonical_path(&t, "b"), "b");
}

#[test]
fn push_timestamp_is_at_sign_and_seconds() {
    assert_eq!(push_timestamp_at(1_700_000_000), "@1700000000");
    let ts = push_timestamp();
    assert!(ts.starts_with('@'));
    assert!(ts[1..].chars().all(|c| c.is_ascii_digit()));
}
