//! Stack-based pivot mechanism for nested plan execution.
//!
//! When a plan's work phase appends a frame to `<root>/stack.yaml`, the
//! driver pushes the new top and runs a full cycle of the target plan
//! before popping back. This module owns the frame records, the push
//! validation (depth cap, cycle detection, target validity) and the pure
//! transitions after a work phase and after a cycle. Reading and writing
//! `stack.yaml` and probing the file system belong to the binary, which
//! hands the results in as `PushFacts`.

use vstd::prelude::*;

use crate::clock::unix_now_secs;
use crate::dream::{ancestor_chain, marked_ancestor, nearest_marked_spec};
use crate::text::{decimal, extend_str, push_decimal, string_of, chars_of, str_eq};
use crate::types::LlmPhase;

verus! {

/// Hard cap on nesting depth. Prevents runaway recursion from a buggy
/// coordinator prompt.
pub const MAX_STACK_DEPTH: usize = 5;

/// One entry in `stack.yaml`. Path is the only required field; `pushed_at`
/// and `reason` are informational.
#[derive(Debug, Clone, PartialEq, Eq)]
pub struct Frame {
    pub path: String,
    pub pushed_at: Option<String>,
    pub reason: Option<String>,
}

/// The on-disk stack. Ordered; the last frame is the executing plan.
#[derive(Debug, Clone, PartialEq, Eq)]
pub struct Stack {
    pub frames: Vec<Frame>,
}

impl Default for Stack {
    fn default() -> (s: Stack)
        ensures
            s.frames@.len() == 0,
    {
        Stack { frames: Vec::new() }
    }
}

/// The paths of a frame list, in order.
pub open spec fn frame_paths(frames: Seq<Frame>) -> Seq<Seq<char>> {
    frames.map_values(|f: Frame| f.path@)
}

/// The `pushed_at` text for a push at `secs` seconds after the epoch.
pub open spec fn timestamp_text(secs: nat) -> Seq<char> {
    seq!['@'] + decimal(secs)
}

/// `timestamp_text` for a given second count.
pub fn push_timestamp_at(secs: u64) -> (r: String)
    ensures
        r@ == timestamp_text(secs as nat),
{
    let mut v: Vec<char> = Vec::new();
    v.push('@');
    push_decimal(&mut v, secs);
    string_of(&v)
}

/// Canonical form for a `Frame::pushed_at` value: `@` and the current
/// Unix time in seconds.
pub fn push_timestamp() -> (r: String)
    ensures
        exists|secs: nat| r@ == timestamp_text(secs),
{
    let secs = unix_now_secs();
    push_timestamp_at(secs)
}

/// What the file system says about a push: the canonical form of each
/// path that could be canonicalised (others stand for themselves), and
/// whether the target is a directory holding a `phase.md`.
pub struct PushFacts {
    pub canonical: Vec<(String, String)>,
    pub target_is_dir: bool,
    pub target_has_phase_md: bool,
}

pub open spec fn canon_table(t: Seq<(String, String)>) -> Seq<(Seq<char>, Seq<char>)> {
    t.map_values(|e: (String, String)| (e.0@, e.1@))
}

/// The canonical form of `p`: the first table entry for it, or `p` itself.
pub open spec fn canonical_of(t: Seq<(Seq<char>, Seq<char>)>, p: Seq<char>) -> Seq<char>
    decreases t.len(),
{
    if t.len() == 0 {
        p
    } else if t[0].0 == p {
        t[0].1
    } else {
        canonical_of(t.skip(1), p)
    }
}

/// Executable `canonical_of`.
pub fn canonical_path(t: &Vec<(String, String)>, p: &str) -> (r: String)
    ensures
        r@ == canonical_of(canon_table(t@), p@),
{
    let ghost tv = canon_table(t@);
    let mut i: usize = 0;
    assert(tv.skip(0) =~= tv);
    while i < t.len()
        invariant
            i <= t.len(),
            tv == canon_table(t@),
            canonical_of(tv, p@) == canonical_of(tv.skip(i as int), p@),
        decreases t.len() - i,
    {
        assert(tv.skip(i as int)[0] == tv[i as int]);
        assert(tv.skip(i as int).skip(1) =~= tv.skip(i + 1));
        if str_eq(t[i].0.as_str(), p) {
            return crate::text::clone_string(&t[i].1);
        }
        i += 1;
    }
    assert(tv.skip(i as int).len() == 0);
    crate::text::owned(p)
}

/// Why a push of `target` onto a stack with frame paths `frames` is
/// refused, checked in this order: depth cap, cycle (same canonical path
/// already stacked), target not a directory, target without `phase.md`.
pub open spec fn push_refusal(
    frames: Seq<Seq<char>>,
    target: Seq<char>,
    t: Seq<(Seq<char>, Seq<char>)>,
    is_dir: bool,
    has_phase_md: bool,
) -> Option<Seq<char>> {
    if frames.len() >= MAX_STACK_DEPTH {
        Some("Max stack depth "@ + decimal(MAX_STACK_DEPTH as nat) + " exceeded; attempted push target: "@ + target)
    } else if exists|i: int| 0 <= i < frames.len() && canonical_of(t, #[trigger] frames[i]) == canonical_of(t, target) {
        Some("Cycle detected: "@ + target + " already in stack"@)
    } else if !is_dir {
        Some("Invalid pivot target: "@ + target + " does not exist or is not a directory"@)
    } else if !has_phase_md {
        Some("Invalid pivot target: "@ + target + " has no phase.md"@)
    } else {
        None
    }
}

fn message(prefix: &str, path: &str, suffix: &str) -> (r: String)
    ensures
        r@ == prefix@ + path@ + suffix@,
{
    let mut v: Vec<char> = Vec::new();
    extend_str(&mut v, prefix);
    extend_str(&mut v, path);
    extend_str(&mut v, suffix);
    string_of(&v)
}

/// Reject a push that would exceed `MAX_STACK_DEPTH`, revisit an
/// already-stacked plan, or point at something that is not a plan
/// directory. The error is a one-line diagnostic.
pub fn validate_push(stack: &Stack, new_frame: &Frame, facts: &PushFacts) -> (r: Result<(), String>)
    ensures
        match r {
            Ok(()) => push_refusal(
                frame_paths(stack.frames@),
                new_frame.path@,
                canon_table(facts.canonical@),
                facts.target_is_dir,
                facts.target_has_phase_md,
            ) is None,
            Err(e) => push_refusal(
                frame_paths(stack.frames@),
                new_frame.path@,
                canon_table(facts.canonical@),
                facts.target_is_dir,
                facts.target_has_phase_md,
            ) == Some(e@),
        },
{
    let ghost fp = frame_paths(stack.frames@);
    let ghost tv = canon_table(facts.canonical@);
    let target = new_frame.path.as_str();
    if stack.frames.len() >= MAX_STACK_DEPTH {
        let mut v: Vec<char> = Vec::new();
        extend_str(&mut v, "Max stack depth ");
        push_decimal(&mut v, MAX_STACK_DEPTH as u64);
        extend_str(&mut v, " exceeded; attempted push target: ");
        extend_str(&mut v, target);
        return Err(string_of(&v));
    }
    let canonical_new = canonical_path(&facts.canonical, target);
    let cn = chars_of(canonical_new.as_str());
    let mut i: usize = 0;
    while i < stack.frames.len()
        invariant
            i <= stack.frames.len(),
            stack.frames.len() < MAX_STACK_DEPTH,
            target@ == new_frame.path@,
            fp == frame_paths(stack.frames@),
            tv == canon_table(facts.canonical@),
            cn@ == canonical_of(tv, new_frame.path@),
            forall|j: int| 0 <= j < i ==> canonical_of(tv, #[trigger] fp[j]) != canonical_of(tv, new_frame.path@),
        decreases stack.frames.len() - i,
    {
        let existing = canonical_path(&facts.canonical, stack.frames[i].path.as_str());
        let ev = chars_of(existing.as_str());
        if crate::text::chars_eq(&ev, &cn) {
            assert(canonical_of(tv, fp[i as int]) == canonical_of(tv, new_frame.path@));
            let e = message("Cycle detected: ", target, " already in stack");
            assert(push_refusal(fp, new_frame.path@, tv, facts.target_is_dir, facts.target_has_phase_md) == Some(e@));
            return Err(e);
        }
        i += 1;
    }
    if !facts.target_is_dir {
        return Err(message("Invalid pivot target: ", target, " does not exist or is not a directory"));
    }
    if !facts.target_has_phase_md {
        return Err(message("Invalid pivot target: ", target, " has no phase.md"));
    }
    Ok(())
}

/// A frame stack that stays under the depth cap and never holds the same
/// plan twice.
pub open spec fn stack_ok(frames: Seq<Seq<char>>, t: Seq<(Seq<char>, Seq<char>)>) -> bool {
    &&& frames.len() <= MAX_STACK_DEPTH
    &&& forall|i: int, j: int|
        0 <= i < j < frames.len() ==> canonical_of(t, #[trigger] frames[i]) != canonical_of(t, #[trigger] frames[j])
}

/// A push that `validate_push` accepts keeps the stack within the depth
/// cap and free of cycles.
pub proof fn accepted_push_keeps_stack_ok(
    frames: Seq<Seq<char>>,
    target: Seq<char>,
    t: Seq<(Seq<char>, Seq<char>)>,
    is_dir: bool,
    has_phase_md: bool,
)
    requires
        stack_ok(frames, t),
        push_refusal(frames, target, t, is_dir, has_phase_md) is None,
    ensures
        stack_ok(frames.push(target), t),
{
    let g = frames.push(target);
    assert forall|i: int, j: int| 0 <= i < j < g.len() implies canonical_of(t, #[trigger] g[i]) != canonical_of(
        t,
        #[trigger] g[j],
    ) by {
        if j == frames.len() {
            assert(g[i] == frames[i]);
            if canonical_of(t, frames[i]) == canonical_of(t, target) {
                assert(exists|k: int| 0 <= k < frames.len() && canonical_of(t, #[trigger] frames[k]) == canonical_of(t, target));
            }
        } else {
            assert(g[i] == frames[i] && g[j] == frames[j]);
        }
    }
}

/// What the driver should do after a work phase finishes.
#[derive(Debug, Clone, PartialEq, Eq)]
pub enum NextAfterWork {
    /// The agent advanced `phase.md` and added no new top: run the normal cycle.
    ContinueNormalCycle,
    /// The agent advanced `phase.md` and added a new top: run the
    /// coordinator's cycle, push at its end.
    PushAfterCycle(Frame),
    /// The agent left `phase.md` at `work` and added a new top: push now.
    PushImmediately(Frame),
    /// The phase did not advance and no pivot was requested.
    Error(String),
}

pub open spec fn caller_bug_text() -> Seq<char> {
    "stack_grew=true but new_top=None — caller bug"@
}

pub open spec fn no_advance_text() -> Seq<char> {
    "phase did not advance and no pivot was requested"@
}

/// Decide what to do after a work phase ends, from the phase read back
/// from `phase.md`, whether `stack.yaml` gained a top frame, and that
/// frame.
pub fn decide_after_work(phase_after: LlmPhase, stack_grew: bool, new_top: Option<Frame>) -> (r: NextAfterWork)
    ensures
        phase_after == LlmPhase::Work && stack_grew ==> match new_top {
            Some(f) => r == NextAfterWork::PushImmediately(f),
            None => (r matches NextAfterWork::Error(m) && m@ == caller_bug_text()),
        },
        phase_after == LlmPhase::Work && !stack_grew ==> (r matches NextAfterWork::Error(m) && m@
            == no_advance_text()),
        phase_after != LlmPhase::Work && stack_grew ==> match new_top {
            Some(f) => r == NextAfterWork::PushAfterCycle(f),
            None => (r matches NextAfterWork::Error(m) && m@ == caller_bug_text()),
        },
        phase_after != LlmPhase::Work && !stack_grew ==> r == NextAfterWork::ContinueNormalCycle,
{
    let at_work = match phase_after {
        LlmPhase::Work => true,
        _ => false,
    };
    if at_work && stack_grew {
        match new_top {
            Some(f) => NextAfterWork::PushImmediately(f),
            None => NextAfterWork::Error(crate::text::owned("stack_grew=true but new_top=None — caller bug")),
        }
    } else if at_work {
        NextAfterWork::Error(crate::text::owned("phase did not advance and no pivot was requested"))
    } else if stack_grew {
        match new_top {
            Some(f) => NextAfterWork::PushAfterCycle(f),
            None => NextAfterWork::Error(crate::text::owned("stack_grew=true but new_top=None — caller bug")),
        }
    } else {
        NextAfterWork::ContinueNormalCycle
    }
}

/// What the driver should do after a plan's full cycle ends.
#[derive(Debug, Clone, PartialEq, Eq)]
pub enum NextAfterCycle {
    /// Continue the root plan's loop at its next work phase.
    Continue,
    /// A new top was added during this cycle: push it and enter its cycle.
    Push(Frame),
    /// The nested plan had nothing new to push: pop to the parent.
    Pop,
}

/// Decide what to do after `git-commit-triage` of the executing plan.
/// `current_depth` counts the executing plan; depth 1 is the root alone.
pub fn decide_after_cycle(current_depth: usize, stack_grew: bool, new_top: Option<Frame>) -> (r: NextAfterCycle)
    ensures
        stack_grew && new_top is Some ==> r == NextAfterCycle::Push(new_top->0),
        !(stack_grew && new_top is Some) && current_depth > 1 ==> r == NextAfterCycle::Pop,
        !(stack_grew && new_top is Some) && current_depth <= 1 ==> r == NextAfterCycle::Continue,
        r == NextAfterCycle::Continue ==> current_depth <= 1,
        r == NextAfterCycle::Pop ==> current_depth > 1,
{
    if stack_grew {
        if let Some(f) = new_top {
            return NextAfterCycle::Push(f);
        }
    }
    if current_depth > 1 {
        NextAfterCycle::Pop
    } else {
        NextAfterCycle::Continue
    }
}

/// The error when no directory above a pivoted-to plan holds `.git`.
pub open spec fn no_git_ancestor_text(plan_dir: Seq<char>) -> Seq<char> {
    "No .git ancestor found for plan "@ + plan_dir
}

/// The context a pivoted-to plan runs in: its canonical path, the nearest
/// directory at or above it that holds `.git` as project (which one that
/// is depends on the disk: the one `nearest_marked_spec` gives for some
/// answer to each probe), the project's parent as the dev root (empty
/// without one), its related-plans text and the root's config.
pub fn frame_to_context(canonical_plan_dir: &str, related_plans: String, config_root: &str) -> (r: Result<
    crate::types::PlanContext,
    String,
>)
    ensures
        exists|answers: Seq<bool>|
            #![trigger nearest_marked_spec(ancestor_chain(canonical_plan_dir@), answers)]
            answers.len() == ancestor_chain(canonical_plan_dir@).len() && match nearest_marked_spec(
                ancestor_chain(canonical_plan_dir@),
                answers,
            ) {
                None => r matches Err(e) && e@ == no_git_ancestor_text(canonical_plan_dir@),
                Some(project) => r matches Ok(ctx) && {
                    &&& ctx.plan_dir@ == canonical_plan_dir@
                    &&& ctx.project_dir@ == project
                    &&& ctx.dev_root@ == match crate::paths::path_parent(project) {
                        Some(p) => p,
                        None => seq![],
                    }
                    &&& ctx.related_plans@ == related_plans@
                    &&& ctx.config_root@ == config_root@
                },
            },
{
    let project_dir = match marked_ancestor(canonical_plan_dir) {
        None => {
            let mut v: Vec<char> = Vec::new();
            crate::text::extend_str(&mut v, "No .git ancestor found for plan ");
            crate::text::extend_str(&mut v, canonical_plan_dir);
            return Err(crate::text::string_of(&v));
        },
        Some(d) => d,
    };
    let dev_root = match crate::paths::parent_of(project_dir.as_str()) {
        Some(p) => p,
        None => String::new(),
    };
    Ok(
        crate::types::PlanContext {
            plan_dir: crate::text::owned(canonical_plan_dir),
            project_dir,
            dev_root,
            related_plans,
            config_root: crate::text::owned(config_root),
        },
    )
}

} // verus!
