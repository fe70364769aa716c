//! What the loop asks of git, decided here and run by the binary: the
//! subtree root of a plan, the commits a phase makes, and the reading of
//! `git diff --name-only` output.

use vstd::prelude::*;

use crate::order::views_of;
use crate::paths::{grandparent, grandparent_of};
use crate::text::{
    chars_of, clone_string, extend_str, str_eq, lines, lines_of, owned, string_of, trim, trim_chars, views,
};

verus! {

pub struct CommitResult {
    pub committed: bool,
    pub message: String,
}

/// One entry in `commits.yaml`: pathspecs and the message for them.
/// Pathspecs are passed verbatim to `git add`.
#[derive(Debug)]
pub struct CommitSpec {
    pub paths: Vec<String>,
    pub message: String,
}

/// Shape of `commits.yaml`: the ordered commits that together partition
/// the work-tree diff.
#[derive(Debug)]
pub struct CommitsSpec {
    pub commits: Vec<CommitSpec>,
}

/// The error when a plan path is too shallow to have a subtree root.
pub open spec fn shallow_plan_text(plan_dir: Seq<char>) -> Seq<char> {
    "Cannot derive subtree root from plan dir "@ + plan_dir
        + " — expected <subtree>/<state-dir>/<plan> layout"@
}

/// The subtree root of a plan path `<subtree>/<state-dir>/<plan>`: its
/// grandparent, provided the plan has two parent directories below the
/// filesystem root (so neither `/plan` nor `/a/plan`, nor a relative
/// `a/plan`, has one).
pub open spec fn subtree_root(c: Seq<char>) -> Option<Seq<char>> {
    match grandparent(c) {
        Some(g) => if g == "/"@ || g.len() == 0 {
            None
        } else {
            Some(g)
        },
        None => None,
    }
}

/// The subtree root controlled by ravel-lite for a plan: every plan lives
/// at `<subtree>/<state-dir>/<plan>`, so the root is `<plan>/../..` of the
/// canonical plan path (`canonical`, or the path itself when it could not
/// be canonicalised). Pure path math; a plan without two parent
/// directories is refused.
pub fn project_root_for_plan(plan_dir: &str, canonical: Option<&str>) -> (r: Result<String, String>)
    ensures
        ({
            let c = match canonical {
                Some(c) => c@,
                None => plan_dir@,
            };
            match subtree_root(c) {
                Some(g) => r matches Ok(s) && s@ == g,
                None => r matches Err(e) && e@ == shallow_plan_text(plan_dir@),
            }
        }),
{
    let c = match canonical {
        Some(c) => c,
        None => plan_dir,
    };
    let root = match grandparent_of(c) {
        Some(g) => if g.as_str().is_empty() || str_eq(g.as_str(), "/") {
            None
        } else {
            Some(g)
        },
        None => None,
    };
    match root {
        Some(g) => Ok(g),
        None => {
            let mut v: Vec<char> = Vec::new();
            extend_str(&mut v, "Cannot derive subtree root from plan dir ");
            extend_str(&mut v, plan_dir);
            extend_str(&mut v, " — expected <subtree>/<state-dir>/<plan> layout");
            Err(string_of(&v))
        },
    }
}

/// The default commit message for a phase: `run-plan: <phase> (<plan>)`.
pub open spec fn default_message(phase_name: Seq<char>, plan_name: Seq<char>) -> Seq<char> {
    "run-plan: "@ + phase_name + " ("@ + plan_name + ")"@
}

pub fn default_commit_message(phase_name: &str, plan_name: &str) -> (r: String)
    ensures
        r@ == default_message(phase_name@, plan_name@),
{
    let mut v: Vec<char> = Vec::new();
    extend_str(&mut v, "run-plan: ");
    extend_str(&mut v, phase_name);
    extend_str(&mut v, " (");
    extend_str(&mut v, plan_name);
    extend_str(&mut v, ")");
    string_of(&v)
}

/// One commit the work-phase commit makes: the pathspecs to stage (`None`
/// stages the whole subtree) and the message.
pub struct PlannedCommit {
    pub paths: Option<Vec<String>>,
    pub message: String,
}

pub open spec fn strs(v: Seq<String>) -> Seq<Seq<char>> {
    v.map_values(|s: String| s@)
}

fn clone_strs(v: &Vec<String>) -> (r: Vec<String>)
    ensures
        strs(r@) == strs(v@),
{
    let mut r: Vec<String> = Vec::new();
    let mut i: usize = 0;
    while i < v.len()
        invariant
            i <= v.len(),
            strs(r@) == strs(v@.take(i as int)),
        decreases v.len() - i,
    {
        let ghost before = r@;
        r.push(clone_string(&v[i]));
        assert(strs(r@) =~= strs(before).push(v@[i as int]@));
        assert(strs(v@.take(i + 1)) =~= strs(v@.take(i as int)).push(v@[i as int]@));
        i += 1;
    }
    assert(v@.take(i as int) =~= v@);
    r
}

/// The commits for the work phase: one per entry of a parsed, non-empty
/// `commits.yaml`, in order; otherwise (missing, unparseable or empty) a
/// single catch-all commit of the subtree under the default message.
pub fn planned_commits(spec: Option<CommitsSpec>, phase_name: &str, plan_name: &str) -> (r: Vec<PlannedCommit>)
    ensures
        match spec {
            Some(s) if s.commits@.len() > 0 => r@.len() == s.commits@.len() && forall|i: int|
                0 <= i < r@.len() ==> ((#[trigger] r@[i]).paths matches Some(ps) && strs(ps@) == strs(
                    s.commits@[i].paths@,
                ) && r@[i].message@ == s.commits@[i].message@),
            _ => r@.len() == 1 && r@[0].paths is None && r@[0].message@ == default_message(
                phase_name@,
                plan_name@,
            ),
        },
{
    match spec {
        Some(s) => {
            if s.commits.len() > 0 {
                let mut r: Vec<PlannedCommit> = Vec::new();
                let mut i: usize = 0;
                while i < s.commits.len()
                    invariant
                        i <= s.commits.len(),
                        r@.len() == i,
                        forall|j: int|
                            0 <= j < i ==> ((#[trigger] r@[j]).paths matches Some(ps) && strs(ps@) == strs(
                                s.commits@[j].paths@,
                            ) && r@[j].message@ == s.commits@[j].message@),
                    decreases s.commits.len() - i,
                {
                    let e = &s.commits[i];
                    r.push(PlannedCommit { paths: Some(clone_strs(&e.paths)), message: clone_string(&e.message) });
                    i += 1;
                }
                return r;
            }
        },
        None => {},
    }
    let mut r: Vec<PlannedCommit> = Vec::new();
    r.push(PlannedCommit { paths: None, message: default_commit_message(phase_name, plan_name) });
    r
}

/// The paths listed by `git diff --name-only`: each line trimmed, blank
/// lines dropped, in order.
pub open spec fn name_only_paths(ls: Seq<Seq<char>>) -> Seq<Seq<char>>
    decreases ls.len(),
{
    if ls.len() == 0 {
        seq![]
    } else {
        name_only_paths(ls.drop_last()) + if trim(ls.last()).len() == 0 {
            seq![]
        } else {
            seq![trim(ls.last())]
        }
    }
}

pub fn parse_name_only(stdout: &str) -> (r: Vec<String>)
    ensures
        strs(r@) == name_only_paths(lines(stdout@)),
{
    let sv = chars_of(stdout);
    let ls = lines_of(&sv);
    let ghost lv = views(ls@);
    let mut r: Vec<String> = Vec::new();
    let mut i: usize = 0;
    while i < ls.len()
        invariant
            i <= ls.len(),
            lv == views(ls@),
            strs(r@) == name_only_paths(lv.take(i as int)),
        decreases ls.len() - i,
    {
        assert(lv.take(i + 1).drop_last() =~= lv.take(i as int));
        let t = trim_chars(&ls[i]);
        if t.len() > 0 {
            let ghost before = r@;
            r.push(string_of(&t));
            assert(strs(r@) =~= strs(before).push(t@));
        }
        i += 1;
    }
    assert(lv.take(i as int) =~= lv);
    r
}

/// The lines of `git status --porcelain` output, as they are.
pub fn parse_status_lines(stdout: &str) -> (r: Vec<String>)
    ensures
        strs(r@) == lines(stdout@),
{
    let sv = chars_of(stdout);
    let ls = lines_of(&sv);
    let mut r: Vec<String> = Vec::new();
    let mut i: usize = 0;
    while i < ls.len()
        invariant
            i <= ls.len(),
            strs(r@) == views(ls@).take(i as int),
        decreases ls.len() - i,
    {
        let ghost before = r@;
        r.push(string_of(&ls[i]));
        assert(strs(r@) =~= strs(before).push(ls@[i as int]@));
        assert(views(ls@).take(i + 1) =~= views(ls@).take(i as int).push(ls@[i as int]@));
        i += 1;
    }
    assert(views(ls@).take(i as int) =~= views(ls@));
    r
}

/// One block of the work-tree snapshot: the command's output without
/// trailing whitespace, or a note when it was blank or the command failed.
pub open spec fn snapshot_block(out: Option<Seq<char>>, blank_note: Seq<char>, failed_note: Seq<char>) -> Seq<char> {
    match out {
        Some(s) => if trim(s).len() > 0 {
            crate::text::trim_end(s)
        } else {
            blank_note
        },
        None => failed_note,
    }
}

/// The snapshot of what changed since the work baseline, given the output
/// of `git diff --stat <baseline> -- <project>` and of
/// `git status --porcelain -- <project>` (`None` where the command failed).
pub open spec fn work_tree_text(baseline_sha: Seq<char>, diff_stat: Option<Seq<char>>, status: Option<Seq<char>>) -> Seq<
    char,
> {
    "Files changed since work baseline (git diff --stat "@ + baseline_sha + "):\n"@ + snapshot_block(
        diff_stat,
        "(no tracked-file changes since baseline)"@,
        "(git diff --stat failed)"@,
    ) + "\n\nCurrently uncommitted or untracked (git status --porcelain):\n"@ + snapshot_block(
        status,
        "(clean — nothing uncommitted or untracked)"@,
        "(git status failed)"@,
    )
}

fn block_exec(out: &Option<String>, blank_note: &str, failed_note: &str) -> (r: String)
    ensures
        r@ == snapshot_block(
            match out {
                Some(s) => Some(s@),
                None => None,
            },
            blank_note@,
            failed_note@,
        ),
{
    match out {
        Some(s) => {
            let cs = chars_of(s.as_str());
            let t = trim_chars(&cs);
            if t.len() > 0 {
                string_of(&crate::text::trim_end_chars(&cs))
            } else {
                owned(blank_note)
            }
        },
        None => owned(failed_note),
    }
}

/// Compose the work-tree snapshot.
pub fn work_tree_snapshot_text(baseline_sha: &str, diff_stat: &Option<String>, status: &Option<String>) -> (r: String)
    ensures
        r@ == work_tree_text(
            baseline_sha@,
            match diff_stat {
                Some(s) => Some(s@),
                None => None,
            },
            match status {
                Some(s) => Some(s@),
                None => None,
            },
        ),
{
    let mut v: Vec<char> = Vec::new();
    extend_str(&mut v, "Files changed since work baseline (git diff --stat ");
    extend_str(&mut v, baseline_sha);
    extend_str(&mut v, "):\n");
    let d = block_exec(diff_stat, "(no tracked-file changes since baseline)", "(git diff --stat failed)");
    extend_str(&mut v, d.as_str());
    extend_str(&mut v, "\n\nCurrently uncommitted or untracked (git status --porcelain):\n");
    let st = block_exec(status, "(clean — nothing uncommitted or untracked)", "(git status failed)");
    extend_str(&mut v, st.as_str());
    string_of(&v)
}

/// The arguments of a git command scoped to a subtree: `base`, then `--`
/// and the subtree's path relative to the repository top unless it is the
/// top itself (empty).
pub fn dirty_args(base: &Vec<String>, rel: &str) -> (r: Vec<String>)
    ensures
        rel@.len() == 0 ==> views_of(r@) == views_of(base@),
        rel@.len() > 0 ==> views_of(r@) == views_of(base@) + seq!["--"@, rel@],
{
    let mut v = crate::order::clone_strings(base);
    if chars_of(rel).len() > 0 {
        let ghost before = views_of(v@);
        v.push(owned("--"));
        v.push(owned(rel));
        assert(views_of(v@) =~= before + seq!["--"@, rel@]);
    }
    v
}

} // verus!
