//! CLI-facing plan-state mutations used by phase prompts.
//!
//! Two verbs: `set-phase` (rewrite `<plan>/phase.md`) and `push-plan`
//! (append a frame to `<plan>/stack.yaml`). These functions decide what
//! is written; the binary probes the file system beforehand and performs
//! the atomic write afterwards.

use vstd::prelude::*;

use crate::filenames::PHASE_FILENAME;
use crate::paths::{join_path, path_join};
use crate::pivot::{
    canon_table, frame_paths, push_refusal, push_timestamp, timestamp_text, validate_push, Frame,
    PushFacts, Stack,
};
use crate::text::{extend_str, string_of};
use crate::types::{phase_from_name, Phase};

verus! {

/// The accepted phase names, as listed in the error for a typo.
pub open spec fn valid_phases_text() -> Seq<char> {
    "work, analyse-work, reflect, dream, triage, git-commit-work, git-commit-reflect, git-commit-dream, git-commit-triage"@
}

/// Outcome of `set-phase`: the error for an unknown phase name or a plan
/// directory without `phase.md`, else the file to overwrite.
pub open spec fn set_phase_outcome(plan_dir: Seq<char>, phase: Seq<char>, phase_md_exists: bool) -> Result<
    Seq<char>,
    Seq<char>,
> {
    if phase_from_name(phase) is None {
        Err("Invalid phase '"@ + phase + "'. Accepted values: "@ + valid_phases_text())
    } else if !phase_md_exists {
        Err("phase.md not found at "@ + path_join(plan_dir, "phase.md"@)
            + ". set-phase refuses to create a new plan dir."@)
    } else {
        Ok(path_join(plan_dir, "phase.md"@))
    }
}

/// Validate a `set-phase` request. On `Ok` the caller writes `phase`
/// (its bytes, unchanged) to the returned path, atomically.
/// `phase_md_exists` says whether `<plan_dir>/phase.md` exists.
pub fn run_set_phase(plan_dir: &str, phase: &str, phase_md_exists: bool) -> (r: Result<String, String>)
    ensures
        match r {
            Ok(p) => set_phase_outcome(plan_dir@, phase@, phase_md_exists) == Ok::<Seq<char>, Seq<char>>(p@),
            Err(e) => set_phase_outcome(plan_dir@, phase@, phase_md_exists) == Err::<Seq<char>, Seq<char>>(e@),
        },
{
    proof {
        reveal_strlit("phase.md");
    }
    if Phase::parse(phase).is_none() {
        let mut v: Vec<char> = Vec::new();
        extend_str(&mut v, "Invalid phase '");
        extend_str(&mut v, phase);
        extend_str(&mut v, "'. Accepted values: ");
        extend_str(
            &mut v,
            "work, analyse-work, reflect, dream, triage, git-commit-work, git-commit-reflect, git-commit-dream, git-commit-triage",
        );
        return Err(string_of(&v));
    }
    let target = join_path(plan_dir, PHASE_FILENAME);
    if !phase_md_exists {
        let mut v: Vec<char> = Vec::new();
        extend_str(&mut v, "phase.md not found at ");
        extend_str(&mut v, target.as_str());
        extend_str(&mut v, ". set-phase refuses to create a new plan dir.");
        return Err(string_of(&v));
    }
    Ok(target)
}

/// The frame paths `push-plan` validates against: the stored frames, or
/// the coordinator alone when the stack is absent or empty (its frame is
/// implicit until the first push).
pub open spec fn seeded_paths(existing: Option<Stack>, plan_dir: Seq<char>) -> Seq<Seq<char>> {
    match existing {
        Some(s) => if s.frames@.len() > 0 {
            frame_paths(s.frames@)
        } else {
            seq![plan_dir]
        },
        None => seq![plan_dir],
    }
}

/// The error message when the coordinator directory has no `phase.md`.
pub open spec fn not_a_plan_text(plan_dir: Seq<char>) -> Seq<char> {
    "phase.md not found at "@ + path_join(plan_dir, "phase.md"@)
        + ". push-plan refuses to operate on a non-plan directory."@
}

/// Append a frame for `target_plan_dir` to the coordinator's stack.
/// `existing` is the parsed `stack.yaml` (`None` when absent);
/// `plan_has_phase_md` says whether `<plan_dir>/phase.md` exists; `facts`
/// describe the target and the canonical paths. On `Ok` the caller writes
/// the returned stack; on `Err` nothing is written.
pub fn run_push_plan(
    plan_dir: &str,
    target_plan_dir: &str,
    reason: Option<String>,
    plan_has_phase_md: bool,
    existing: Option<Stack>,
    facts: &PushFacts,
) -> (r: Result<Stack, String>)
    ensures
        !plan_has_phase_md ==> (r matches Err(e) && e@ == not_a_plan_text(plan_dir@)),
        plan_has_phase_md ==> {
            let refusal = push_refusal(
                seeded_paths(existing, plan_dir@),
                target_plan_dir@,
                canon_table(facts.canonical@),
                facts.target_is_dir,
                facts.target_has_phase_md,
            );
            match r {
                Err(e) => refusal == Some(e@),
                Ok(s) => {
                    &&& refusal is None
                    &&& frame_paths(s.frames@) == seeded_paths(existing, plan_dir@).push(target_plan_dir@)
                    &&& s.frames@.last().reason == reason
                    &&& s.frames@.last().pushed_at matches Some(t) && exists|secs: nat|
                        t@ == timestamp_text(secs)
                    &&& match existing {
                        Some(x) => x.frames@.len() > 0 ==> s.frames@.drop_last() == x.frames@,
                        None => true,
                    }
                    &&& (existing is None || existing->0.frames@.len() == 0) ==> (s.frames@[0].pushed_at is None
                        && s.frames@[0].reason is None)
                },
            }
        },
{
    proof {
        reveal_strlit("phase.md");
    }
    if !plan_has_phase_md {
        let target = join_path(plan_dir, PHASE_FILENAME);
        let mut v: Vec<char> = Vec::new();
        extend_str(&mut v, "phase.md not found at ");
        extend_str(&mut v, target.as_str());
        extend_str(&mut v, ". push-plan refuses to operate on a non-plan directory.");
        return Err(string_of(&v));
    }
    let ghost ex = existing;
    let mut stack = match existing {
        Some(s) => s,
        None => Stack { frames: Vec::new() },
    };
    if stack.frames.len() == 0 {
        stack.frames.push(Frame { path: crate::text::owned(plan_dir), pushed_at: None, reason: None });
        assert(frame_paths(stack.frames@) =~= seq![plan_dir@]);
    }
    assert(frame_paths(stack.frames@) == seeded_paths(ex, plan_dir@));
    let new_frame = Frame {
        path: crate::text::owned(target_plan_dir),
        pushed_at: Some(push_timestamp()),
        reason,
    };
    match validate_push(&stack, &new_frame, facts) {
        Err(e) => Err(e),
        Ok(()) => {
            let ghost before = stack.frames@;
            stack.frames.push(new_frame);
            assert(frame_paths(stack.frames@) =~= frame_paths(before).push(target_plan_dir@));
            assert(stack.frames@.drop_last() =~= before);
            Ok(stack)
        },
    }
}

} // verus!
