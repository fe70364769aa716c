//! Decisions of the phase loop: phase banners, script-phase transitions,
//! and the dirty-tree warning after the work commit.
//!
//! The loop itself (reading `phase.md`, running agents, committing) is
//! I/O and lives with the binary; it asks these functions what to do.

use vstd::prelude::*;

use crate::paths::{basename_or_empty, basename_or_empty_of};
use crate::text::{
    extend_chars, owned,
    char_boundary, char_boundary_exec, chars_of, extend_str, push_decimal, slice_chars, split_once,
    split_once_chars, starts_with, starts_with_str, string_of, trim, trim_chars, decimal,
};
use crate::types::{LlmPhase, Phase, ScriptPhase};

verus! {

/// Plan name shown in banners: the basename of the plan directory.
pub fn plan_name(plan_dir: &str) -> (r: String)
    ensures
        r@ == basename_or_empty(plan_dir@),
{
    basename_or_empty_of(plan_dir)
}

/// Basename of the project directory, for the phase header. Many plans
/// share generic names like "core", so the project disambiguates which
/// session a banner belongs to.
pub fn project_name(project_dir: &str) -> (r: String)
    ensures
        r@ == basename_or_empty(project_dir@),
{
    basename_or_empty_of(project_dir)
}

/// The `project / plan` discriminator, or just the plan when the project
/// name is empty.
pub open spec fn spec_header_scope(project: Seq<char>, plan: Seq<char>) -> Seq<char> {
    if project.len() == 0 {
        plan
    } else {
        project + " / "@ + plan
    }
}

pub fn header_scope(project: &str, plan: &str) -> (r: String)
    ensures
        r@ == spec_header_scope(project@, plan@),
{
    let mut r = String::new();
    if project.is_empty() {
        crate::text::push_str(&mut r, plan);
    } else {
        crate::text::push_str(&mut r, project);
        crate::text::push_str(&mut r, " / ");
        crate::text::push_str(&mut r, plan);
    }
    r
}

/// The path named by a `git status --porcelain` line: the text after the
/// 3-byte `XY ` status prefix, trimmed; for a rename `old -> new`, the new
/// name. `None` when the line is shorter than 3 bytes or byte 3 falls
/// inside a character.
pub open spec fn porcelain_path(line: Seq<char>) -> Option<Seq<char>> {
    match char_boundary(line, 3) {
        None => None,
        Some(k) => {
            let rest = line.skip(k as int);
            match split_once(rest, " -> "@) {
                Some((_, after)) => Some(trim(after)),
                None => Some(trim(rest)),
            }
        },
    }
}

pub fn parse_porcelain_path(line: &str) -> (r: Option<String>)
    ensures
        match r {
            Some(p) => porcelain_path(line@) == Some(p@),
            None => porcelain_path(line@) is None,
        },
{
    let v = chars_of(line);
    match char_boundary_exec(&v, 3) {
        None => None,
        Some(k) => {
            let rest = slice_chars(&v, k, v.len());
            assert(rest@ =~= line@.skip(k as int));
            let arrow = chars_of(" -> ");
            match split_once_chars(&rest, &arrow) {
                Some((_, after)) => Some(string_of(&trim_chars(&after))),
                None => Some(string_of(&trim_chars(&rest))),
            }
        },
    }
}

/// The phase a script phase hands over to, and whether the loop goes on
/// (`false` ends the cycle). After the reflect commit the dream phase runs
/// only when memory outgrew its headroom.
pub open spec fn script_transition(phase: ScriptPhase, dream_due: bool) -> (Phase, bool) {
    match phase {
        ScriptPhase::GitCommitWork => (Phase::Llm(LlmPhase::Reflect), true),
        ScriptPhase::GitCommitReflect => if dream_due {
            (Phase::Llm(LlmPhase::Dream), true)
        } else {
            (Phase::Llm(LlmPhase::Triage), true)
        },
        ScriptPhase::GitCommitDream => (Phase::Llm(LlmPhase::Triage), true),
        ScriptPhase::GitCommitTriage => (Phase::Llm(LlmPhase::Work), false),
    }
}

/// Next phase and continue-flag after a script phase.
pub fn next_after_script_phase(phase: ScriptPhase, dream_due: bool) -> (r: (Phase, bool))
    ensures
        r == script_transition(phase, dream_due),
{
    match phase {
        ScriptPhase::GitCommitWork => (Phase::Llm(LlmPhase::Reflect), true),
        ScriptPhase::GitCommitReflect => if dream_due {
            (Phase::Llm(LlmPhase::Dream), true)
        } else {
            (Phase::Llm(LlmPhase::Triage), true)
        },
        ScriptPhase::GitCommitDream => (Phase::Llm(LlmPhase::Triage), true),
        ScriptPhase::GitCommitTriage => (Phase::Llm(LlmPhase::Work), false),
    }
}

/// Every script phase hands over to an LLM phase, and exactly the triage
/// commit ends a cycle, handing over to the next work phase; the dream
/// phase is entered only when it is due.
pub proof fn script_transitions_close_the_cycle(phase: ScriptPhase, dream_due: bool)
    ensures
        script_transition(phase, dream_due).0 is Llm,
        !script_transition(phase, dream_due).1 <==> phase == ScriptPhase::GitCommitTriage,
        phase == ScriptPhase::GitCommitTriage ==> script_transition(phase, dream_due).0 == Phase::Llm(
            LlmPhase::Work,
        ),
        script_transition(phase, dream_due).0 == Phase::Llm(LlmPhase::Dream) ==> dream_due,
{
}

/// Maximum number of dirty paths to enumerate inline.
pub const DIRTY_PATH_DISPLAY_LIMIT: usize = 20;

/// Whether a dirty `git status --porcelain` line is kept by the narrowing
/// filter: untracked lines always, unparseable lines always, and other
/// lines when their path changed since the work baseline. Without a
/// baseline set every line is kept.
pub open spec fn keep_dirty_line(line: Seq<char>, touched: Option<Seq<Seq<char>>>) -> bool {
    match touched {
        None => true,
        Some(set) => if starts_with(line, "??"@) {
            true
        } else {
            match porcelain_path(line) {
                Some(p) => set.contains(p),
                None => true,
            }
        },
    }
}

/// The dirty lines kept by the filter, in order.
pub open spec fn kept_dirty(dirty: Seq<Seq<char>>, touched: Option<Seq<Seq<char>>>) -> Seq<Seq<char>>
    decreases dirty.len(),
{
    if dirty.len() == 0 {
        seq![]
    } else {
        kept_dirty(dirty.drop_last(), touched) + if keep_dirty_line(dirty.last(), touched) {
            seq![dirty.last()]
        } else {
            seq![]
        }
    }
}

/// The warning lines for a filtered dirty list: nothing when empty,
/// otherwise a fixed three-line header, at most `DIRTY_PATH_DISPLAY_LIMIT`
/// paths, and a count of the rest.
pub open spec fn dirty_warning(kept: Seq<Seq<char>>) -> Seq<Seq<char>> {
    if kept.len() == 0 {
        seq![]
    } else {
        let shown = if kept.len() > DIRTY_PATH_DISPLAY_LIMIT {
            kept.take(DIRTY_PATH_DISPLAY_LIMIT as int)
        } else {
            kept
        };
        seq![
            "\n  ⚠  WARNING: uncommitted changes remain in the project tree"@,
            "     after the work commit. The work agent likely edited files"@,
            "     without committing them. Review and recover before continuing:"@,
        ] + shown.map_values(|l: Seq<char>| "       "@ + l) + if kept.len() > DIRTY_PATH_DISPLAY_LIMIT {
            seq![
                "       ... and "@ + decimal((kept.len() - DIRTY_PATH_DISPLAY_LIMIT) as nat)
                    + " more (run `git status` for the full list)"@,
            ]
        } else {
            seq![]
        }
    }
}

pub open spec fn strings_v(v: Seq<String>) -> Seq<Seq<char>> {
    v.map_values(|s: String| s@)
}

fn string_in(set: &Vec<String>, s: &String) -> (r: bool)
    ensures
        r == strings_v(set@).contains(s@),
{
    let sv = chars_of(s.as_str());
    let mut i: usize = 0;
    while i < set.len()
        invariant
            i <= set.len(),
            sv@ == s@,
            forall|j: int| 0 <= j < i ==> set@[j]@ != s@,
        decreases set.len() - i,
    {
        let e = chars_of(set[i].as_str());
        if crate::text::chars_eq(&e, &sv) {
            assert(strings_v(set@)[i as int] == s@);
            return true;
        }
        i += 1;
    }
    assert(!strings_v(set@).contains(s@)) by {
        if strings_v(set@).contains(s@) {
            let k = choose|k: int| 0 <= k < strings_v(set@).len() && strings_v(set@)[k] == s@;
            assert(set@[k]@ == s@);
        }
    };
    false
}

/// The lines to log after the work commit, given the `git status
/// --porcelain` lines and, when a work baseline exists, the paths changed
/// since it.
pub fn dirty_tree_warning(dirty: &Vec<String>, touched: &Option<Vec<String>>) -> (r: Vec<String>)
    ensures
        strings_v(r@) == dirty_warning(
            kept_dirty(
                strings_v(dirty@),
                match touched {
                    Some(t) => Some(strings_v(t@)),
                    None => None,
                },
            ),
        ),
{
    let ghost tv: Option<Seq<Seq<char>>> = match touched {
        Some(t) => Some(strings_v(t@)),
        None => None,
    };
    let mut kept: Vec<String> = Vec::new();
    let mut i: usize = 0;
    while i < dirty.len()
        invariant
            i <= dirty.len(),
            tv == match touched {
                Some(t) => Some(strings_v(t@)),
                None => None,
            },
            strings_v(kept@) == kept_dirty(strings_v(dirty@).take(i as int), tv),
        decreases dirty.len() - i,
    {
        let line = &dirty[i];
        let keep = match touched {
            None => true,
            Some(set) => {
                let lv = chars_of(line.as_str());
                if starts_with_str(&lv, "??") {
                    true
                } else {
                    match parse_porcelain_path(line.as_str()) {
                        Some(p) => string_in(set, &p),
                        None => true,
                    }
                }
            },
        };
        assert(strings_v(dirty@).take(i + 1).drop_last() =~= strings_v(dirty@).take(i as int));
        let ghost prev = strings_v(kept@);
        if keep {
            kept.push(line.clone());
            assert(strings_v(kept@) =~= prev.push(line@));
        }
        i += 1;
    }
    assert(strings_v(dirty@).take(dirty.len() as int) =~= strings_v(dirty@));
    let ghost kv = strings_v(kept@);
    let mut out: Vec<String> = Vec::new();
    if kept.len() == 0 {
        assert(strings_v(out@) =~= dirty_warning(kv));
        return out;
    }
    out.push(string_of(&chars_of("\n  ⚠  WARNING: uncommitted changes remain in the project tree")));
    out.push(string_of(&chars_of("     after the work commit. The work agent likely edited files")));
    out.push(string_of(&chars_of("     without committing them. Review and recover before continuing:")));
    let n = if kept.len() > DIRTY_PATH_DISPLAY_LIMIT {
        DIRTY_PATH_DISPLAY_LIMIT
    } else {
        kept.len()
    };
    let ghost head = strings_v(out@);
    let ghost shown = kv.take(n as int);
    let mut j: usize = 0;
    while j < n
        invariant
            j <= n <= kept.len(),
            kv == strings_v(kept@),
            shown == kv.take(n as int),
            strings_v(out@) == head + shown.take(j as int).map_values(|l: Seq<char>| "       "@ + l),
        decreases n - j,
    {
        let mut v: Vec<char> = Vec::new();
        extend_str(&mut v, "       ");
        extend_str(&mut v, kept[j].as_str());
        let ghost prev = strings_v(out@);
        out.push(string_of(&v));
        assert(strings_v(out@) =~= prev.push("       "@ + shown[j as int]));
        assert(shown.take(j + 1).map_values(|l: Seq<char>| "       "@ + l) =~= shown.take(j as int).map_values(
            |l: Seq<char>| "       "@ + l,
        ).push("       "@ + shown[j as int]));
        j += 1;
    }
    assert(shown.take(n as int) =~= shown);
    if kept.len() > DIRTY_PATH_DISPLAY_LIMIT {
        let mut v: Vec<char> = Vec::new();
        extend_str(&mut v, "       ... and ");
        push_decimal(&mut v, (kept.len() - DIRTY_PATH_DISPLAY_LIMIT) as u64);
        extend_str(&mut v, " more (run `git status` for the full list)");
        let ghost prev = strings_v(out@);
        out.push(string_of(&v));
        assert(strings_v(out@) =~= prev.push(v@));
    }
    proof {
        if kv.len() <= DIRTY_PATH_DISPLAY_LIMIT {
            assert(kv.take(n as int) =~= kv);
        }
    }
    assert(strings_v(out@) =~= dirty_warning(kv));
    out
}

/// What a script phase does, in order: optionally append the latest
/// session to the session log, write the next phase, commit the plan
/// under `commit_label`, then optionally warn about a dirty tree, show the
/// skipped-dream banner, or save the work baseline in a follow-on commit.
/// `continue_cycle` is false after the triage commit, which ends a cycle.
pub struct ScriptPlan {
    pub append_session_log: bool,
    pub next_phase: Phase,
    pub commit_label: &'static str,
    pub warn_if_dirty: bool,
    pub show_dream_skipped: bool,
    pub save_work_baseline: bool,
    pub continue_cycle: bool,
}

/// The label of a script phase's commit.
pub open spec fn commit_label_of(phase: ScriptPhase) -> Seq<char> {
    match phase {
        ScriptPhase::GitCommitWork => "work"@,
        ScriptPhase::GitCommitReflect => "reflect"@,
        ScriptPhase::GitCommitDream => "dream"@,
        ScriptPhase::GitCommitTriage => "triage"@,
    }
}

/// Plan the script phase `phase`; `dream_due` says whether memory has
/// outgrown its headroom (consulted after the reflect commit only).
pub fn plan_script_phase(phase: ScriptPhase, dream_due: bool) -> (r: ScriptPlan)
    ensures
        (r.next_phase, r.continue_cycle) == script_transition(phase, dream_due),
        r.commit_label@ == commit_label_of(phase),
        r.append_session_log <==> phase == ScriptPhase::GitCommitWork,
        r.warn_if_dirty <==> phase == ScriptPhase::GitCommitWork,
        r.show_dream_skipped <==> (phase == ScriptPhase::GitCommitReflect && !dream_due),
        r.save_work_baseline <==> phase == ScriptPhase::GitCommitTriage,
{
    let (next_phase, continue_cycle) = next_after_script_phase(phase, dream_due);
    match phase {
        ScriptPhase::GitCommitWork => ScriptPlan {
            append_session_log: true,
            next_phase,
            commit_label: "work",
            warn_if_dirty: true,
            show_dream_skipped: false,
            save_work_baseline: false,
            continue_cycle,
        },
        ScriptPhase::GitCommitReflect => ScriptPlan {
            append_session_log: false,
            next_phase,
            commit_label: "reflect",
            warn_if_dirty: false,
            show_dream_skipped: !dream_due,
            save_work_baseline: false,
            continue_cycle,
        },
        ScriptPhase::GitCommitDream => ScriptPlan {
            append_session_log: false,
            next_phase,
            commit_label: "dream",
            warn_if_dirty: false,
            show_dream_skipped: false,
            save_work_baseline: false,
            continue_cycle,
        },
        ScriptPhase::GitCommitTriage => ScriptPlan {
            append_session_log: false,
            next_phase,
            commit_label: "triage",
            warn_if_dirty: false,
            show_dream_skipped: false,
            save_work_baseline: true,
            continue_cycle,
        },
    }
}

/// What an LLM phase needs around its agent run.
pub struct LlmPlan {
    /// The work phase runs the agent interactively; the others headless.
    pub interactive: bool,
    /// Record the work baseline first (a fresh plan starting at work).
    pub seed_work_baseline: bool,
    /// Inline the work-tree snapshot and backlog transitions in the prompt.
    pub needs_work_snapshot: bool,
    /// After a dream phase, reset the dream baseline.
    pub update_dream_baseline: bool,
    /// After triage, dispatch the subagents it asked for.
    pub dispatch_subagents: bool,
}

pub fn plan_llm_phase(phase: LlmPhase, work_baseline_exists: bool) -> (r: LlmPlan)
    ensures
        r.interactive <==> phase == LlmPhase::Work,
        r.seed_work_baseline <==> (phase == LlmPhase::Work && !work_baseline_exists),
        r.needs_work_snapshot <==> phase == LlmPhase::AnalyseWork,
        r.update_dream_baseline <==> phase == LlmPhase::Dream,
        r.dispatch_subagents <==> phase == LlmPhase::Triage,
{
    let is_work = match phase {
        LlmPhase::Work => true,
        _ => false,
    };
    LlmPlan {
        interactive: is_work,
        seed_work_baseline: is_work && !work_baseline_exists,
        needs_work_snapshot: match phase {
            LlmPhase::AnalyseWork => true,
            _ => false,
        },
        update_dream_baseline: match phase {
            LlmPhase::Dream => true,
            _ => false,
        },
        dispatch_subagents: match phase {
            LlmPhase::Triage => true,
            _ => false,
        },
    }
}

/// After an LLM phase: `None` when `phase.md` moved on, else the message
/// that stops the loop.
pub fn check_phase_advanced(before: Phase, after: Phase) -> (r: Option<String>)
    ensures
        before != after ==> r is None,
        before == after ==> (r matches Some(m) && m@ == "\n  ✗  Phase did not advance from "@
            + crate::types::phase_name(before) + ". Stopping."@),
{
    let same = match (before, after) {
        (Phase::Llm(a), Phase::Llm(b)) => a == b,
        (Phase::Script(a), Phase::Script(b)) => a == b,
        _ => false,
    };
    if !same {
        return None;
    }
    let mut v: Vec<char> = Vec::new();
    extend_str(&mut v, "\n  ✗  Phase did not advance from ");
    extend_str(&mut v, before.to_string().as_str());
    extend_str(&mut v, ". Stopping.");
    Some(string_of(&v))
}

/// The rule under phase banners.
pub const HR: &'static str = "────────────────────────────────────────────────────";

/// The banner lines of a phase: rule, label and scope, description, rule.
pub open spec fn header_lines(label: Seq<char>, scope: Seq<char>, description: Seq<char>) -> Seq<Seq<char>> {
    seq!["\n"@ + HR@, "  ◆  "@ + label + "  ·  "@ + scope, "  "@ + description, HR@]
}

fn header_lines_exec(label: &str, scope: &str, description: &str) -> (r: Vec<String>)
    ensures
        strings_v(r@) == header_lines(label@, scope@, description@),
{
    let mut r: Vec<String> = Vec::new();
    let mut a: Vec<char> = Vec::new();
    extend_str(&mut a, "\n");
    extend_str(&mut a, HR);
    r.push(string_of(&a));
    let mut b: Vec<char> = Vec::new();
    extend_str(&mut b, "  ◆  ");
    extend_str(&mut b, label);
    extend_str(&mut b, "  ·  ");
    extend_str(&mut b, scope);
    r.push(string_of(&b));
    let mut c: Vec<char> = Vec::new();
    extend_str(&mut c, "  ");
    extend_str(&mut c, description);
    r.push(string_of(&c));
    r.push(crate::text::owned(HR));
    assert(strings_v(r@) =~= header_lines(label@, scope@, description@));
    r
}

/// The banner of an LLM phase for `project / plan`.
pub fn phase_header(phase: LlmPhase, project: &str, plan: &str) -> (r: Vec<String>)
    ensures
        strings_v(r@) == header_lines(
            crate::format::phase_label(phase),
            spec_header_scope(project@, plan@),
            crate::format::phase_description(phase),
        ),
{
    let info = crate::format::phase_info(phase);
    let scope = header_scope(project, plan);
    header_lines_exec(info.label, scope.as_str(), info.description)
}

/// The banner shown when the dream phase is skipped.
pub fn dream_skipped_header(scope: &str) -> (r: Vec<String>)
    ensures
        strings_v(r@) == header_lines(
            crate::format::phase_label(LlmPhase::Dream),
            scope@,
            "Skipped — memory within headroom"@,
        ),
{
    let info = crate::format::phase_info(LlmPhase::Dream);
    header_lines_exec(info.label, scope, "Skipped — memory within headroom")
}

/// The log line of a plan commit: its message's first line, or that
/// nothing was committed.
pub fn commit_log_line(phase_name: &str, scope: &str, committed: bool, message: &str) -> (r: String)
    ensures
        r@ == "\n  ⚙  COMMIT · "@ + phase_name@ + "  ·  "@ + scope@ + "  ·  "@ + if committed {
            crate::format::first_line(message@)
        } else {
            "nothing to commit"@
        },
{
    let mut v: Vec<char> = Vec::new();
    extend_str(&mut v, "\n  ⚙  COMMIT · ");
    extend_str(&mut v, phase_name);
    extend_str(&mut v, "  ·  ");
    extend_str(&mut v, scope);
    extend_str(&mut v, "  ·  ");
    if committed {
        let mv = chars_of(message);
        let ls = crate::text::lines_of(&mv);
        if ls.len() > 0 {
            crate::text::extend_chars(&mut v, &ls[0]);
        }
    } else {
        extend_str(&mut v, "nothing to commit");
    }
    string_of(&v)
}

} // verus!
