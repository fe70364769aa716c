//! Computes a human-readable summary of what changed in a plan's backlog
//! between a baseline commit and the current working-tree state. It fills
//! the analyse-work prompt's `{{BACKLOG_TRANSITIONS}}` slot, so the LLM can
//! author a specific commit title rather than falling back to the phase
//! name.
//!
//! Soft-fails on every failure mode (missing baseline, git error, parse
//! error): the prompt slot always needs *something*.

use vstd::prelude::*;

use crate::filenames::BACKLOG_FILENAME;
use crate::text::{
    chars_eq, chars_of, debug_str, debug_str_spec, decimal, extend_chars, extend_str, join,
    join_chars, line_count, line_count_chars, push_decimal, string_of, views,
};

verus! {

#[derive(Clone, Copy, Debug, PartialEq, Eq, Structural)]
pub enum Status {
    NotStarted,
    InProgress,
    Done,
    Blocked,
}

/// One backlog task.
#[derive(Clone, Debug, PartialEq, Eq)]
pub struct Task {
    pub id: String,
    pub title: String,
    pub category: String,
    pub status: Status,
    pub blocked_reason: Option<String>,
    pub dependencies: Vec<String>,
    pub description: String,
    pub results: Option<String>,
    pub handoff: Option<String>,
}

/// The backlog file: its ordered task list.
#[derive(Clone, Debug, PartialEq, Eq)]
pub struct BacklogFile {
    pub tasks: Vec<Task>,
}

impl Default for BacklogFile {
    fn default() -> (b: BacklogFile)
        ensures
            b.tasks@.len() == 0,
    {
        BacklogFile { tasks: Vec::new() }
    }
}

#[derive(Clone, Copy, Debug, PartialEq, Eq, Structural)]
pub enum HandoffChange {
    Added,
    Modified,
    Cleared,
}

/// Transition record for a baseline/current backlog pair. Absent-in-baseline
/// and absent-in-current are the two "pure" cases; everything else is a
/// field-level diff.
#[derive(Debug, PartialEq, Eq)]
pub struct Transitions {
    pub status_flips: Vec<(String, Status, Status)>,
    pub results_added: Vec<(String, usize)>,
    pub results_modified: Vec<(String, usize, usize)>,
    pub tasks_added: Vec<(String, String)>,
    pub tasks_deleted: Vec<(String, String)>,
    pub title_changes: Vec<(String, String, String)>,
    pub dependency_changes: Vec<(String, Vec<String>, Vec<String>)>,
    pub handoff_changes: Vec<(String, HandoffChange)>,
}

// ── Abstract content ─────────────────────────────────────────────────────────

pub open spec fn opt_str(o: Option<String>) -> Option<Seq<char>> {
    match o {
        Some(s) => Some(s@),
        None => None,
    }
}

pub open spec fn strs(v: Seq<String>) -> Seq<Seq<char>> {
    v.map_values(|s: String| s@)
}

/// The last task of `ts` with id `id` (later entries win, as in a map
/// built from the list).
pub open spec fn last_with_id(ts: Seq<Task>, id: Seq<char>) -> Option<Task>
    decreases ts.len(),
{
    if ts.len() == 0 {
        None
    } else if ts.last().id@ == id {
        Some(ts.last())
    } else {
        last_with_id(ts.drop_last(), id)
    }
}

/// Number of result lines of a task (0 without results).
pub open spec fn results_lines(t: Task) -> nat {
    match t.results {
        Some(r) => line_count(r@),
        None => 0,
    }
}

pub open spec fn status_flip(b: Task, c: Task) -> Option<(Seq<char>, Status, Status)> {
    if b.status != c.status {
        Some((c.id@, b.status, c.status))
    } else {
        None
    }
}

pub open spec fn result_added(b: Task, c: Task) -> Option<(Seq<char>, nat)> {
    if results_lines(b) == 0 && results_lines(c) > 0 {
        Some((c.id@, results_lines(c)))
    } else {
        None
    }
}

pub open spec fn result_modified(b: Task, c: Task) -> Option<(Seq<char>, nat, nat)> {
    if results_lines(b) > 0 && results_lines(c) > 0 && opt_str(b.results) != opt_str(c.results) {
        Some((c.id@, results_lines(b), results_lines(c)))
    } else {
        None
    }
}

pub open spec fn title_change(b: Task, c: Task) -> Option<(Seq<char>, Seq<char>, Seq<char>)> {
    if b.title@ != c.title@ {
        Some((c.id@, b.title@, c.title@))
    } else {
        None
    }
}

pub open spec fn dependency_change(b: Task, c: Task) -> Option<(Seq<char>, Seq<Seq<char>>, Seq<Seq<char>>)> {
    if strs(b.dependencies@) != strs(c.dependencies@) {
        Some((c.id@, strs(b.dependencies@), strs(c.dependencies@)))
    } else {
        None
    }
}

pub open spec fn handoff_change(b: Task, c: Task) -> Option<(Seq<char>, HandoffChange)> {
    match (opt_str(b.handoff), opt_str(c.handoff)) {
        (None, Some(s)) => if s.len() > 0 {
            Some((c.id@, HandoffChange::Added))
        } else {
            None
        },
        (Some(x), None) => if x.len() > 0 {
            Some((c.id@, HandoffChange::Cleared))
        } else {
            None
        },
        (Some(x), Some(y)) => if x != y {
            Some((c.id@, HandoffChange::Modified))
        } else {
            None
        },
        (None, None) => None,
    }
}

/// The `Some` entries of `f` over `ts`, in order.
pub open spec fn collect<T>(ts: Seq<Task>, f: spec_fn(Task) -> Option<T>) -> Seq<T>
    decreases ts.len(),
{
    if ts.len() == 0 {
        seq![]
    } else {
        collect(ts.drop_last(), f) + match f(ts.last()) {
            Some(x) => seq![x],
            None => seq![],
        }
    }
}

/// A per-task diff applied to current tasks that exist in the baseline.
pub open spec fn matched<T>(base: Seq<Task>, d: spec_fn(Task, Task) -> Option<T>) -> spec_fn(Task) -> Option<T> {
    |c: Task| match last_with_id(base, c.id@) {
        Some(b) => d(b, c),
        None => None,
    }
}

pub open spec fn spec_status_flips(base: Seq<Task>, cur: Seq<Task>) -> Seq<(Seq<char>, Status, Status)> {
    collect(cur, matched(base, |b: Task, c: Task| status_flip(b, c)))
}

pub open spec fn spec_results_added(base: Seq<Task>, cur: Seq<Task>) -> Seq<(Seq<char>, nat)> {
    collect(cur, matched(base, |b: Task, c: Task| result_added(b, c)))
}

pub open spec fn spec_results_modified(base: Seq<Task>, cur: Seq<Task>) -> Seq<(Seq<char>, nat, nat)> {
    collect(cur, matched(base, |b: Task, c: Task| result_modified(b, c)))
}

pub open spec fn spec_title_changes(base: Seq<Task>, cur: Seq<Task>) -> Seq<(Seq<char>, Seq<char>, Seq<char>)> {
    collect(cur, matched(base, |b: Task, c: Task| title_change(b, c)))
}

pub open spec fn spec_dependency_changes(base: Seq<Task>, cur: Seq<Task>) -> Seq<
    (Seq<char>, Seq<Seq<char>>, Seq<Seq<char>>),
> {
    collect(cur, matched(base, |b: Task, c: Task| dependency_change(b, c)))
}

pub open spec fn spec_handoff_changes(base: Seq<Task>, cur: Seq<Task>) -> Seq<(Seq<char>, HandoffChange)> {
    collect(cur, matched(base, |b: Task, c: Task| handoff_change(b, c)))
}

/// Current tasks whose id is absent from the baseline, as `(id, title)`.
pub open spec fn spec_tasks_added(base: Seq<Task>, cur: Seq<Task>) -> Seq<(Seq<char>, Seq<char>)> {
    collect(
        cur,
        |c: Task| if last_with_id(base, c.id@) is None {
            Some((c.id@, c.title@))
        } else {
            None
        },
    )
}

/// Baseline tasks whose id is absent from the current backlog.
pub open spec fn spec_tasks_deleted(base: Seq<Task>, cur: Seq<Task>) -> Seq<(Seq<char>, Seq<char>)> {
    collect(
        base,
        |b: Task| if last_with_id(cur, b.id@) is None {
            Some((b.id@, b.title@))
        } else {
            None
        },
    )
}

impl Transitions {
    pub open spec fn flips_v(&self) -> Seq<(Seq<char>, Status, Status)> {
        self.status_flips@.map_values(|e: (String, Status, Status)| (e.0@, e.1, e.2))
    }

    pub open spec fn radd_v(&self) -> Seq<(Seq<char>, nat)> {
        self.results_added@.map_values(|e: (String, usize)| (e.0@, e.1 as nat))
    }

    pub open spec fn rmod_v(&self) -> Seq<(Seq<char>, nat, nat)> {
        self.results_modified@.map_values(|e: (String, usize, usize)| (e.0@, e.1 as nat, e.2 as nat))
    }

    pub open spec fn tadd_v(&self) -> Seq<(Seq<char>, Seq<char>)> {
        self.tasks_added@.map_values(|e: (String, String)| (e.0@, e.1@))
    }

    pub open spec fn tdel_v(&self) -> Seq<(Seq<char>, Seq<char>)> {
        self.tasks_deleted@.map_values(|e: (String, String)| (e.0@, e.1@))
    }

    pub open spec fn titles_v(&self) -> Seq<(Seq<char>, Seq<char>, Seq<char>)> {
        self.title_changes@.map_values(|e: (String, String, String)| (e.0@, e.1@, e.2@))
    }

    pub open spec fn deps_v(&self) -> Seq<(Seq<char>, Seq<Seq<char>>, Seq<Seq<char>>)> {
        self.dependency_changes@.map_values(
            |e: (String, Vec<String>, Vec<String>)| (e.0@, strs(e.1@), strs(e.2@)),
        )
    }

    pub open spec fn handoffs_v(&self) -> Seq<(Seq<char>, HandoffChange)> {
        self.handoff_changes@.map_values(|e: (String, HandoffChange)| (e.0@, e.1))
    }

    /// The transitions computed from the field-level diffs of the tasks
    /// `cur` that appear in `base`.
    pub open spec fn diffs_match(&self, base: Seq<Task>, cur: Seq<Task>) -> bool {
        &&& self.flips_v() == spec_status_flips(base, cur)
        &&& self.radd_v() == spec_results_added(base, cur)
        &&& self.rmod_v() == spec_results_modified(base, cur)
        &&& self.titles_v() == spec_title_changes(base, cur)
        &&& self.deps_v() == spec_dependency_changes(base, cur)
        &&& self.handoffs_v() == spec_handoff_changes(base, cur)
    }
}


pub proof fn lemma_collect_step<T>(ts: Seq<Task>, f: spec_fn(Task) -> Option<T>, i: int)
    requires
        0 <= i < ts.len(),
    ensures
        collect(ts.take(i + 1), f) == collect(ts.take(i), f) + match f(ts[i]) {
            Some(x) => seq![x],
            None => seq![],
        },
{
    assert(ts.take(i + 1).drop_last() =~= ts.take(i));
}

// ── Executable helpers ───────────────────────────────────────────────────────

fn clone_string(s: &String) -> (r: String)
    ensures
        r@ == s@,
{
    s.clone()
}

fn clone_strings(v: &Vec<String>) -> (r: Vec<String>)
    ensures
        strs(r@) == strs(v@),
{
    let mut r: Vec<String> = Vec::new();
    let mut i: usize = 0;
    while i < v.len()
        invariant
            i <= v.len(),
            strs(r@) == strs(v@.take(i as int)),
        decreases v.len() - i,
    {
        r.push(clone_string(&v[i]));
        assert(strs(v@.take(i + 1)) =~= strs(v@.take(i as int)).push(v@[i as int]@));
        assert(strs(r@) =~= strs(v@.take(i as int)).push(v@[i as int]@));
        i += 1;
    }
    assert(v@.take(v.len() as int) =~= v@);
    r
}

fn string_eq(a: &String, b: &String) -> (r: bool)
    ensures
        r == (a@ == b@),
{
    let av = chars_of(a.as_str());
    let bv = chars_of(b.as_str());
    chars_eq(&av, &bv)
}

fn opt_string_eq(a: &Option<String>, b: &Option<String>) -> (r: bool)
    ensures
        r == (opt_str(*a) == opt_str(*b)),
{
    match (a, b) {
        (Some(x), Some(y)) => string_eq(x, y),
        (None, None) => true,
        _ => false,
    }
}

fn strings_eq(a: &Vec<String>, b: &Vec<String>) -> (r: bool)
    ensures
        r == (strs(a@) == strs(b@)),
{
    if a.len() != b.len() {
        assert(strs(a@).len() != strs(b@).len());
        return false;
    }
    let mut i: usize = 0;
    while i < a.len()
        invariant
            a.len() == b.len(),
            i <= a.len(),
            forall|j: int| 0 <= j < i ==> a@[j]@ == b@[j]@,
        decreases a.len() - i,
    {
        if !string_eq(&a[i], &b[i]) {
            assert(strs(a@)[i as int] != strs(b@)[i as int]);
            return false;
        }
        i += 1;
    }
    assert(strs(a@) =~= strs(b@));
    true
}

/// Index of the last task of `ts` with id `id`.
fn find_last_by_id(ts: &Vec<Task>, id: &String) -> (r: Option<usize>)
    ensures
        match r {
            Some(i) => i < ts.len() && last_with_id(ts@, id@) == Some(ts@[i as int]),
            None => last_with_id(ts@, id@) is None,
        },
{
    let mut k: usize = ts.len();
    assert(ts@.take(k as int) =~= ts@);
    while k > 0
        invariant
            k <= ts.len(),
            last_with_id(ts@.take(k as int), id@) == last_with_id(ts@, id@),
        decreases k,
    {
        let ghost pre = ts@.take(k as int);
        assert(pre.last() == ts@[k - 1]);
        if string_eq(&ts[k - 1].id, id) {
            return Some(k - 1);
        }
        assert(pre.drop_last() =~= ts@.take(k - 1));
        k -= 1;
    }
    None
}

fn results_lines_exec(t: &Task) -> (n: usize)
    ensures
        n == results_lines(*t),
{
    match &t.results {
        Some(r) => {
            let v = chars_of(r.as_str());
            line_count_chars(&v)
        },
        None => 0,
    }
}

/// Append the field-level differences between a baseline task and its
/// current version to `out`.
pub fn diff_task_fields(base: &Task, curr: &Task, out: &mut Transitions)
    ensures
        final(out).flips_v() == old(out).flips_v() + opt_seq(status_flip(*base, *curr)),
        final(out).radd_v() == old(out).radd_v() + opt_seq(result_added(*base, *curr)),
        final(out).rmod_v() == old(out).rmod_v() + opt_seq(result_modified(*base, *curr)),
        final(out).titles_v() == old(out).titles_v() + opt_seq(title_change(*base, *curr)),
        final(out).deps_v() == old(out).deps_v() + opt_seq(dependency_change(*base, *curr)),
        final(out).handoffs_v() == old(out).handoffs_v() + opt_seq(handoff_change(*base, *curr)),
        final(out).tadd_v() == old(out).tadd_v(),
        final(out).tdel_v() == old(out).tdel_v(),
{
    let ghost o = *out;
    if base.status != curr.status {
        out.status_flips.push((clone_string(&curr.id), base.status, curr.status));
        assert(out.flips_v() =~= o.flips_v().push((curr.id@, base.status, curr.status)));
    } else {
        assert(out.flips_v() =~= o.flips_v() + seq![]);
    }
    let bl = results_lines_exec(base);
    let cl = results_lines_exec(curr);
    if bl == 0 && cl > 0 {
        out.results_added.push((clone_string(&curr.id), cl));
        assert(out.radd_v() =~= o.radd_v().push((curr.id@, cl as nat)));
        assert(out.rmod_v() =~= o.rmod_v() + seq![]);
    } else if bl > 0 && cl > 0 && !opt_string_eq(&base.results, &curr.results) {
        out.results_modified.push((clone_string(&curr.id), bl, cl));
        assert(out.rmod_v() =~= o.rmod_v().push((curr.id@, bl as nat, cl as nat)));
        assert(out.radd_v() =~= o.radd_v() + seq![]);
    } else {
        assert(out.radd_v() =~= o.radd_v() + seq![]);
        assert(out.rmod_v() =~= o.rmod_v() + seq![]);
    }
    if !string_eq(&base.title, &curr.title) {
        out.title_changes.push((clone_string(&curr.id), clone_string(&base.title), clone_string(&curr.title)));
        assert(out.titles_v() =~= o.titles_v().push((curr.id@, base.title@, curr.title@)));
    } else {
        assert(out.titles_v() =~= o.titles_v() + seq![]);
    }
    if !strings_eq(&base.dependencies, &curr.dependencies) {
        out.dependency_changes.push(
            (clone_string(&curr.id), clone_strings(&base.dependencies), clone_strings(&curr.dependencies)),
        );
        assert(out.deps_v() =~= o.deps_v().push((curr.id@, strs(base.dependencies@), strs(curr.dependencies@))));
    } else {
        assert(out.deps_v() =~= o.deps_v() + seq![]);
    }
    let change: Option<HandoffChange> = match (&base.handoff, &curr.handoff) {
        (None, Some(x)) => if x.as_str().is_empty() {
            None
        } else {
            Some(HandoffChange::Added)
        },
        (Some(x), None) => if x.as_str().is_empty() {
            None
        } else {
            Some(HandoffChange::Cleared)
        },
        (Some(x), Some(y)) => if string_eq(x, y) {
            None
        } else {
            Some(HandoffChange::Modified)
        },
        (None, None) => None,
    };
    match change {
        Some(hc) => {
            out.handoff_changes.push((clone_string(&curr.id), hc));
            assert(out.handoffs_v() =~= o.handoffs_v().push((curr.id@, hc)));
        },
        None => {
            assert(out.handoffs_v() =~= o.handoffs_v() + seq![]);
        },
    }
    assert(out.tadd_v() =~= o.tadd_v());
    assert(out.tdel_v() =~= o.tdel_v());
}

/// `Some(x)` as a one-element sequence, `None` as the empty one.
pub open spec fn opt_seq<T>(o: Option<T>) -> Seq<T> {
    match o {
        Some(x) => seq![x],
        None => seq![],
    }
}

/// Diff the baseline backlog against the current one.
pub fn compute_transitions(baseline: &BacklogFile, current: &BacklogFile) -> (t: Transitions)
    ensures
        t.diffs_match(baseline.tasks@, current.tasks@),
        t.tadd_v() == spec_tasks_added(baseline.tasks@, current.tasks@),
        t.tdel_v() == spec_tasks_deleted(baseline.tasks@, current.tasks@),
{
    let ghost base = baseline.tasks@;
    let ghost cur = current.tasks@;
    let mut out = Transitions {
        status_flips: Vec::new(),
        results_added: Vec::new(),
        results_modified: Vec::new(),
        tasks_added: Vec::new(),
        tasks_deleted: Vec::new(),
        title_changes: Vec::new(),
        dependency_changes: Vec::new(),
        handoff_changes: Vec::new(),
    };
    assert(cur.take(0) =~= Seq::<Task>::empty());
    assert(out.flips_v() =~= Seq::empty());
    assert(out.radd_v() =~= Seq::empty());
    assert(out.rmod_v() =~= Seq::empty());
    assert(out.titles_v() =~= Seq::empty());
    assert(out.deps_v() =~= Seq::empty());
    assert(out.handoffs_v() =~= Seq::empty());
    assert(out.tadd_v() =~= Seq::empty());
    assert(out.tdel_v() =~= Seq::empty());
    let mut i: usize = 0;
    while i < current.tasks.len()
        invariant
            i <= current.tasks.len(),
            base == baseline.tasks@,
            cur == current.tasks@,
            out.diffs_match(base, cur.take(i as int)),
            out.tadd_v() == spec_tasks_added(base, cur.take(i as int)),
            out.tdel_v() == Seq::<(Seq<char>, Seq<char>)>::empty(),
        decreases current.tasks.len() - i,
    {
        let c = &current.tasks[i];
        let ghost o = out;
        proof {
            lemma_collect_step(cur, matched(base, |b: Task, c: Task| status_flip(b, c)), i as int);
            lemma_collect_step(cur, matched(base, |b: Task, c: Task| result_added(b, c)), i as int);
            lemma_collect_step(cur, matched(base, |b: Task, c: Task| result_modified(b, c)), i as int);
            lemma_collect_step(cur, matched(base, |b: Task, c: Task| title_change(b, c)), i as int);
            lemma_collect_step(cur, matched(base, |b: Task, c: Task| dependency_change(b, c)), i as int);
            lemma_collect_step(cur, matched(base, |b: Task, c: Task| handoff_change(b, c)), i as int);
            lemma_collect_step(
                cur,
                |c: Task| if last_with_id(base, c.id@) is None {
                    Some((c.id@, c.title@))
                } else {
                    None
                },
                i as int,
            );
        }
        match find_last_by_id(&baseline.tasks, &c.id) {
            None => {
                out.tasks_added.push((clone_string(&c.id), clone_string(&c.title)));
                assert(out.tadd_v() =~= o.tadd_v().push((c.id@, c.title@)));
                assert(out.flips_v() =~= o.flips_v() + seq![]);
                assert(out.radd_v() =~= o.radd_v() + seq![]);
                assert(out.rmod_v() =~= o.rmod_v() + seq![]);
                assert(out.titles_v() =~= o.titles_v() + seq![]);
                assert(out.deps_v() =~= o.deps_v() + seq![]);
                assert(out.handoffs_v() =~= o.handoffs_v() + seq![]);
                assert(out.tdel_v() =~= o.tdel_v());
            },
            Some(k) => {
                diff_task_fields(&baseline.tasks[k], c, &mut out);
                assert(out.tadd_v() =~= o.tadd_v() + seq![]);
            },
        }
        i += 1;
    }
    assert(cur.take(current.tasks.len() as int) =~= cur);
    assert(base.take(0) =~= Seq::<Task>::empty());
    let mut j: usize = 0;
    while j < baseline.tasks.len()
        invariant
            j <= baseline.tasks.len(),
            base == baseline.tasks@,
            cur == current.tasks@,
            out.diffs_match(base, cur),
            out.tadd_v() == spec_tasks_added(base, cur),
            out.tdel_v() == spec_tasks_deleted(base.take(j as int), cur),
        decreases baseline.tasks.len() - j,
    {
        let b = &baseline.tasks[j];
        let ghost o = out;
        proof {
            lemma_collect_step(
                base,
                |b: Task| if last_with_id(cur, b.id@) is None {
                    Some((b.id@, b.title@))
                } else {
                    None
                },
                j as int,
            );
        }
        if find_last_by_id(&current.tasks, &b.id).is_none() {
            out.tasks_deleted.push((clone_string(&b.id), clone_string(&b.title)));
            assert(out.tdel_v() =~= o.tdel_v().push((b.id@, b.title@)));
        } else {
            assert(out.tdel_v() =~= o.tdel_v() + seq![]);
        }
        assert(out.flips_v() == o.flips_v());
        assert(out.radd_v() == o.radd_v());
        assert(out.rmod_v() == o.rmod_v());
        assert(out.titles_v() == o.titles_v());
        assert(out.deps_v() == o.deps_v());
        assert(out.handoffs_v() == o.handoffs_v());
        assert(out.tadd_v() == o.tadd_v());
        j += 1;
    }
    assert(base.take(baseline.tasks.len() as int) =~= base);
    out
}


// ── Rendering ────────────────────────────────────────────────────────────────

pub open spec fn status_name(s: Status) -> Seq<char> {
    match s {
        Status::NotStarted => "not_started"@,
        Status::InProgress => "in_progress"@,
        Status::Done => "done"@,
        Status::Blocked => "blocked"@,
    }
}

/// Every status has its own label: a status flip line never names two
/// different statuses alike, and the label is the status's snake_case
/// name (a blocked task reads `blocked`).
pub proof fn status_labels_are_distinct(a: Status, b: Status)
    ensures
        status_name(a) == status_name(b) ==> a == b,
        status_name(Status::Blocked) == "blocked"@,
        status_name(Status::Done) == "done"@,
        status_name(Status::InProgress) == "in_progress"@,
        status_name(Status::NotStarted) == "not_started"@,
{
    reveal_strlit("not_started");
    reveal_strlit("in_progress");
    reveal_strlit("done");
    reveal_strlit("blocked");
    if status_name(a) == status_name(b) && a != b {
        assert(status_name(a).len() != status_name(b).len() || status_name(a)[0] != status_name(b)[0]);
    }
}

/// A flip line names the baseline status, then the current one, each by
/// its own label: two flip lines for the same task are equal only when
/// they record the same change.
pub proof fn flip_lines_tell_changes_apart(title: Seq<char>, a: Status, b: Status, c: Status, d: Status)
    ensures
        flip_item((title, a, b)) == flip_item((title, c, d)) ==> a == c && b == d,
{
    reveal_strlit("not_started");
    reveal_strlit("in_progress");
    reveal_strlit("done");
    reveal_strlit("blocked");
    reveal_strlit("  - ");
    reveal_strlit(": ");
    reveal_strlit(" → ");
    if flip_item((title, a, b)) == flip_item((title, c, d)) {
        let pre = "  - "@ + title + ": "@;
        let l1 = flip_item((title, a, b));
        let l2 = flip_item((title, c, d));
        assert(l1 =~= pre + (status_name(a) + " → "@ + status_name(b)));
        assert(l2 =~= pre + (status_name(c) + " → "@ + status_name(d)));
        let t1 = status_name(a) + " → "@ + status_name(b);
        let t2 = status_name(c) + " → "@ + status_name(d);
        assert(t1 =~= l1.skip(pre.len() as int));
        assert(t2 =~= l2.skip(pre.len() as int));
        assert(t1 == t2);
        assert(t1[0] == status_name(a)[0]);
        assert(t2[0] == status_name(c)[0]);
        status_labels_are_distinct(a, c);
        assert(a == c);
        assert(status_name(b) =~= t1.skip(status_name(a).len() as int + 3));
        assert(status_name(d) =~= t2.skip(status_name(c).len() as int + 3));
        status_labels_are_distinct(b, d);
    }
}

pub fn status_label(s: Status) -> (r: &'static str)
    ensures
        r@ == status_name(s),
{
    match s {
        Status::NotStarted => "not_started",
        Status::InProgress => "in_progress",
        Status::Done => "done",
        Status::Blocked => "blocked",
    }
}

pub open spec fn handoff_name(c: HandoffChange) -> Seq<char> {
    match c {
        HandoffChange::Added => "added"@,
        HandoffChange::Modified => "modified"@,
        HandoffChange::Cleared => "cleared"@,
    }
}

/// `{:?}` of a list of strings: `["a", "b"]`.
pub open spec fn debug_list(xs: Seq<Seq<char>>) -> Seq<char> {
    "["@ + join(xs.map_values(|x: Seq<char>| debug_str_spec(x)), ", "@) + "]"@
}

pub open spec fn flip_item(e: (Seq<char>, Status, Status)) -> Seq<char> {
    "  - "@ + e.0 + ": "@ + status_name(e.1) + " → "@ + status_name(e.2)
}

pub open spec fn radd_item(e: (Seq<char>, nat)) -> Seq<char> {
    "  - "@ + e.0 + ": "@ + decimal(e.1) + " line(s)"@
}

pub open spec fn rmod_item(e: (Seq<char>, nat, nat)) -> Seq<char> {
    "  - "@ + e.0 + ": "@ + decimal(e.1) + " → "@ + decimal(e.2) + " line(s)"@
}

pub open spec fn tadd_item(e: (Seq<char>, Seq<char>)) -> Seq<char> {
    "  + "@ + e.0 + ": "@ + e.1
}

pub open spec fn tdel_item(e: (Seq<char>, Seq<char>)) -> Seq<char> {
    "  - "@ + e.0 + ": "@ + e.1
}

pub open spec fn title_item(e: (Seq<char>, Seq<char>, Seq<char>)) -> Seq<char> {
    "  - "@ + e.0 + ": "@ + debug_str_spec(e.1) + " → "@ + debug_str_spec(e.2)
}

pub open spec fn dep_item(e: (Seq<char>, Seq<Seq<char>>, Seq<Seq<char>>)) -> Seq<char> {
    "  - "@ + e.0 + ": "@ + debug_list(e.1) + " → "@ + debug_list(e.2)
}

pub open spec fn handoff_item(e: (Seq<char>, HandoffChange)) -> Seq<char> {
    "  - "@ + e.0 + ": "@ + handoff_name(e.1)
}

/// A header line followed by its item lines.
pub open spec fn section(header: Seq<char>, items: Seq<Seq<char>>) -> Seq<char> {
    join(seq![header] + items, "\n"@)
}

/// The section for a list, or nothing when the list is empty.
pub open spec fn opt_section(header: Seq<char>, items: Seq<Seq<char>>) -> Seq<Seq<char>> {
    if items.len() == 0 {
        seq![]
    } else {
        seq![section(header, items)]
    }
}

/// Every non-empty section, in fixed order.
pub open spec fn sections_of(
    flips: Seq<(Seq<char>, Status, Status)>,
    radd: Seq<(Seq<char>, nat)>,
    rmod: Seq<(Seq<char>, nat, nat)>,
    tadd: Seq<(Seq<char>, Seq<char>)>,
    tdel: Seq<(Seq<char>, Seq<char>)>,
    titles: Seq<(Seq<char>, Seq<char>, Seq<char>)>,
    deps: Seq<(Seq<char>, Seq<Seq<char>>, Seq<Seq<char>>)>,
    handoffs: Seq<(Seq<char>, HandoffChange)>,
) -> Seq<Seq<char>> {
    opt_section("status flips:"@, flips.map_values(|e| flip_item(e)))
        + opt_section("results added:"@, radd.map_values(|e| radd_item(e)))
        + opt_section("results modified:"@, rmod.map_values(|e| rmod_item(e)))
        + opt_section("tasks added:"@, tadd.map_values(|e| tadd_item(e)))
        + opt_section("tasks deleted:"@, tdel.map_values(|e| tdel_item(e)))
        + opt_section("title changes:"@, titles.map_values(|e| title_item(e)))
        + opt_section("dependency changes:"@, deps.map_values(|e| dep_item(e)))
        + opt_section("handoff changes:"@, handoffs.map_values(|e| handoff_item(e)))
}

/// The sections of a transition record.
pub open spec fn sections(t: Transitions) -> Seq<Seq<char>> {
    sections_of(t.flips_v(), t.radd_v(), t.rmod_v(), t.tadd_v(), t.tdel_v(), t.titles_v(), t.deps_v(), t.handoffs_v())
}

/// The summary text for a list of sections.
pub open spec fn render_sections(secs: Seq<Seq<char>>) -> Seq<char> {
    if secs.len() == 0 {
        "(no backlog changes since baseline)"@
    } else {
        join(secs, "\n\n"@)
    }
}

/// The rendered summary of a transition record.
pub open spec fn rendered(t: Transitions) -> Seq<char> {
    render_sections(sections(t))
}

/// The summary of the changes from the tasks `base` to the tasks `cur`.
pub open spec fn diff_summary(base: Seq<Task>, cur: Seq<Task>) -> Seq<char> {
    render_sections(
        sections_of(
            spec_status_flips(base, cur),
            spec_results_added(base, cur),
            spec_results_modified(base, cur),
            spec_tasks_added(base, cur),
            spec_tasks_deleted(base, cur),
            spec_title_changes(base, cur),
            spec_dependency_changes(base, cur),
            spec_handoff_changes(base, cur),
        ),
    )
}

/// Build a section (header + items) and add it to `secs` when `items` is
/// non-empty.
fn push_section(secs: &mut Vec<Vec<char>>, header: &str, items: Vec<Vec<char>>)
    ensures
        views(final(secs)@) == views(old(secs)@) + opt_section(header@, views(items@)),
{
    if items.len() == 0 {
        assert(views(secs@) =~= views(old(secs)@) + opt_section(header@, views(items@)));
        return;
    }
    let mut all: Vec<Vec<char>> = Vec::new();
    all.push(chars_of(header));
    let mut i: usize = 0;
    while i < items.len()
        invariant
            i <= items.len(),
            views(all@) == seq![header@] + views(items@).take(i as int),
        decreases items.len() - i,
    {
        let ghost prev = views(all@);
        all.push(crate::text::copy_chars(&items[i]));
        assert(views(all@) =~= prev.push(items@[i as int]@));
        assert(views(items@).take(i + 1) =~= views(items@).take(i as int).push(items@[i as int]@));
        assert(views(all@) =~= seq![header@] + views(items@).take(i + 1));
        i += 1;
    }
    assert(views(items@).take(items.len() as int) =~= views(items@));
    let sec = join_chars(&all, "\n");
    secs.push(sec);
    assert(views(secs@) =~= views(old(secs)@).push(sec@));
}

fn push_id_prefix(v: &mut Vec<char>, bullet: &str, id: &String)
    ensures
        final(v)@ == old(v)@ + bullet@ + id@ + ": "@,
{
    extend_str(v, bullet);
    extend_str(v, id.as_str());
    extend_str(v, ": ");
    assert(final(v)@ =~= old(v)@ + bullet@ + id@ + ": "@);
}

fn debug_list_exec(xs: &Vec<String>) -> (r: Vec<char>)
    ensures
        r@ == debug_list(strs(xs@)),
{
    let mut parts: Vec<Vec<char>> = Vec::new();
    let mut i: usize = 0;
    while i < xs.len()
        invariant
            i <= xs.len(),
            views(parts@) == strs(xs@).take(i as int).map_values(|x: Seq<char>| debug_str_spec(x)),
        decreases xs.len() - i,
    {
        let d = debug_str(xs[i].as_str());
        let ghost prev = views(parts@);
        parts.push(chars_of(d.as_str()));
        assert(views(parts@) =~= prev.push(debug_str_spec(xs@[i as int]@)));
        assert(strs(xs@).take(i + 1) =~= strs(xs@).take(i as int).push(xs@[i as int]@));
        assert(views(parts@) =~= strs(xs@).take(i + 1).map_values(|x: Seq<char>| debug_str_spec(x)));
        i += 1;
    }
    assert(strs(xs@).take(xs.len() as int) =~= strs(xs@));
    let mut r: Vec<char> = Vec::new();
    extend_str(&mut r, "[");
    let inner = join_chars(&parts, ", ");
    extend_chars(&mut r, &inner);
    extend_str(&mut r, "]");
    r
}

/// Render a transition record as the prompt text.
pub fn render_transitions(t: &Transitions) -> (r: String)
    ensures
        r@ == rendered(*t),
{
    let mut secs: Vec<Vec<char>> = Vec::new();

    let mut items: Vec<Vec<char>> = Vec::new();
    let mut i: usize = 0;
    while i < t.status_flips.len()
        invariant
            i <= t.status_flips.len(),
            views(items@) == t.flips_v().take(i as int).map_values(|e| flip_item(e)),
        decreases t.status_flips.len() - i,
    {
        let (id, from, to) = &t.status_flips[i];
        let mut v: Vec<char> = Vec::new();
        push_id_prefix(&mut v, "  - ", id);
        extend_str(&mut v, status_label(*from));
        extend_str(&mut v, " → ");
        extend_str(&mut v, status_label(*to));
        let ghost prev = views(items@);
        assert(v@ =~= flip_item(t.flips_v()[i as int]));
        items.push(v);
        assert(views(items@) =~= prev.push(flip_item(t.flips_v()[i as int])));
        assert(t.flips_v().take(i + 1) =~= t.flips_v().take(i as int).push(t.flips_v()[i as int]));
        assert(views(items@) =~= t.flips_v().take(i + 1).map_values(|e| flip_item(e)));
        i += 1;
    }
    assert(t.flips_v().take(t.status_flips.len() as int) =~= t.flips_v());
    push_section(&mut secs, "status flips:", items);

    let mut items: Vec<Vec<char>> = Vec::new();
    let mut i: usize = 0;
    while i < t.results_added.len()
        invariant
            i <= t.results_added.len(),
            views(items@) == t.radd_v().take(i as int).map_values(|e| radd_item(e)),
        decreases t.results_added.len() - i,
    {
        let (id, n) = &t.results_added[i];
        let mut v: Vec<char> = Vec::new();
        push_id_prefix(&mut v, "  - ", id);
        push_decimal(&mut v, *n as u64);
        extend_str(&mut v, " line(s)");
        let ghost prev = views(items@);
        assert(v@ =~= radd_item(t.radd_v()[i as int]));
        items.push(v);
        assert(views(items@) =~= prev.push(radd_item(t.radd_v()[i as int])));
        assert(t.radd_v().take(i + 1) =~= t.radd_v().take(i as int).push(t.radd_v()[i as int]));
        assert(views(items@) =~= t.radd_v().take(i + 1).map_values(|e| radd_item(e)));
        i += 1;
    }
    assert(t.radd_v().take(t.results_added.len() as int) =~= t.radd_v());
    push_section(&mut secs, "results added:", items);

    let mut items: Vec<Vec<char>> = Vec::new();
    let mut i: usize = 0;
    while i < t.results_modified.len()
        invariant
            i <= t.results_modified.len(),
            views(items@) == t.rmod_v().take(i as int).map_values(|e| rmod_item(e)),
        decreases t.results_modified.len() - i,
    {
        let (id, a, b) = &t.results_modified[i];
        let mut v: Vec<char> = Vec::new();
        push_id_prefix(&mut v, "  - ", id);
        push_decimal(&mut v, *a as u64);
        extend_str(&mut v, " → ");
        push_decimal(&mut v, *b as u64);
        extend_str(&mut v, " line(s)");
        let ghost prev = views(items@);
        assert(v@ =~= rmod_item(t.rmod_v()[i as int]));
        items.push(v);
        assert(views(items@) =~= prev.push(rmod_item(t.rmod_v()[i as int])));
        assert(t.rmod_v().take(i + 1) =~= t.rmod_v().take(i as int).push(t.rmod_v()[i as int]));
        assert(views(items@) =~= t.rmod_v().take(i + 1).map_values(|e| rmod_item(e)));
        i += 1;
    }
    assert(t.rmod_v().take(t.results_modified.len() as int) =~= t.rmod_v());
    push_section(&mut secs, "results modified:", items);

    let mut items: Vec<Vec<char>> = Vec::new();
    let mut i: usize = 0;
    while i < t.tasks_added.len()
        invariant
            i <= t.tasks_added.len(),
            views(items@) == t.tadd_v().take(i as int).map_values(|e| tadd_item(e)),
        decreases t.tasks_added.len() - i,
    {
        let (id, title) = &t.tasks_added[i];
        let mut v: Vec<char> = Vec::new();
        push_id_prefix(&mut v, "  + ", id);
        extend_str(&mut v, title.as_str());
        let ghost prev = views(items@);
        assert(v@ =~= tadd_item(t.tadd_v()[i as int]));
        items.push(v);
        assert(views(items@) =~= prev.push(tadd_item(t.tadd_v()[i as int])));
        assert(t.tadd_v().take(i + 1) =~= t.tadd_v().take(i as int).push(t.tadd_v()[i as int]));
        assert(views(items@) =~= t.tadd_v().take(i + 1).map_values(|e| tadd_item(e)));
        i += 1;
    }
    assert(t.tadd_v().take(t.tasks_added.len() as int) =~= t.tadd_v());
    push_section(&mut secs, "tasks added:", items);

    let mut items: Vec<Vec<char>> = Vec::new();
    let mut i: usize = 0;
    while i < t.tasks_deleted.len()
        invariant
            i <= t.tasks_deleted.len(),
            views(items@) == t.tdel_v().take(i as int).map_values(|e| tdel_item(e)),
        decreases t.tasks_deleted.len() - i,
    {
        let (id, title) = &t.tasks_deleted[i];
        let mut v: Vec<char> = Vec::new();
        push_id_prefix(&mut v, "  - ", id);
        extend_str(&mut v, title.as_str());
        let ghost prev = views(items@);
        assert(v@ =~= tdel_item(t.tdel_v()[i as int]));
        items.push(v);
        assert(views(items@) =~= prev.push(tdel_item(t.tdel_v()[i as int])));
        assert(t.tdel_v().take(i + 1) =~= t.tdel_v().take(i as int).push(t.tdel_v()[i as int]));
        assert(views(items@) =~= t.tdel_v().take(i + 1).map_values(|e| tdel_item(e)));
        i += 1;
    }
    assert(t.tdel_v().take(t.tasks_deleted.len() as int) =~= t.tdel_v());
    push_section(&mut secs, "tasks deleted:", items);

    let mut items: Vec<Vec<char>> = Vec::new();
    let mut i: usize = 0;
    while i < t.title_changes.len()
        invariant
            i <= t.title_changes.len(),
            views(items@) == t.titles_v().take(i as int).map_values(|e| title_item(e)),
        decreases t.title_changes.len() - i,
    {
        let (id, from, to) = &t.title_changes[i];
        let mut v: Vec<char> = Vec::new();
        push_id_prefix(&mut v, "  - ", id);
        let df = debug_str(from.as_str());
        extend_str(&mut v, df.as_str());
        extend_str(&mut v, " → ");
        let dt = debug_str(to.as_str());
        extend_str(&mut v, dt.as_str());
        let ghost prev = views(items@);
        assert(v@ =~= title_item(t.titles_v()[i as int]));
        items.push(v);
        assert(views(items@) =~= prev.push(title_item(t.titles_v()[i as int])));
        assert(t.titles_v().take(i + 1) =~= t.titles_v().take(i as int).push(t.titles_v()[i as int]));
        assert(views(items@) =~= t.titles_v().take(i + 1).map_values(|e| title_item(e)));
        i += 1;
    }
    assert(t.titles_v().take(t.title_changes.len() as int) =~= t.titles_v());
    push_section(&mut secs, "title changes:", items);

    let mut items: Vec<Vec<char>> = Vec::new();
    let mut i: usize = 0;
    while i < t.dependency_changes.len()
        invariant
            i <= t.dependency_changes.len(),
            views(items@) == t.deps_v().take(i as int).map_values(|e| dep_item(e)),
        decreases t.dependency_changes.len() - i,
    {
        let (id, from, to) = &t.dependency_changes[i];
        let mut v: Vec<char> = Vec::new();
        push_id_prefix(&mut v, "  - ", id);
        let df = debug_list_exec(from);
        extend_chars(&mut v, &df);
        extend_str(&mut v, " → ");
        let dt = debug_list_exec(to);
        extend_chars(&mut v, &dt);
        let ghost prev = views(items@);
        assert(v@ =~= dep_item(t.deps_v()[i as int]));
        items.push(v);
        assert(views(items@) =~= prev.push(dep_item(t.deps_v()[i as int])));
        assert(t.deps_v().take(i + 1) =~= t.deps_v().take(i as int).push(t.deps_v()[i as int]));
        assert(views(items@) =~= t.deps_v().take(i + 1).map_values(|e| dep_item(e)));
        i += 1;
    }
    assert(t.deps_v().take(t.dependency_changes.len() as int) =~= t.deps_v());
    push_section(&mut secs, "dependency changes:", items);

    let mut items: Vec<Vec<char>> = Vec::new();
    let mut i: usize = 0;
    while i < t.handoff_changes.len()
        invariant
            i <= t.handoff_changes.len(),
            views(items@) == t.handoffs_v().take(i as int).map_values(|e| handoff_item(e)),
        decreases t.handoff_changes.len() - i,
    {
        let (id, change) = &t.handoff_changes[i];
        let mut v: Vec<char> = Vec::new();
        push_id_prefix(&mut v, "  - ", id);
        let label = match change {
            HandoffChange::Added => "added",
            HandoffChange::Modified => "modified",
            HandoffChange::Cleared => "cleared",
        };
        extend_str(&mut v, label);
        let ghost prev = views(items@);
        assert(v@ =~= handoff_item(t.handoffs_v()[i as int]));
        items.push(v);
        assert(views(items@) =~= prev.push(handoff_item(t.handoffs_v()[i as int])));
        assert(t.handoffs_v().take(i + 1) =~= t.handoffs_v().take(i as int).push(t.handoffs_v()[i as int]));
        assert(views(items@) =~= t.handoffs_v().take(i + 1).map_values(|e| handoff_item(e)));
        i += 1;
    }
    assert(t.handoffs_v().take(t.handoff_changes.len() as int) =~= t.handoffs_v());
    push_section(&mut secs, "handoff changes:", items);

    assert(views(secs@) =~= sections(*t));
    if secs.len() == 0 {
        let mut r = String::new();
        crate::text::push_str(&mut r, "(no backlog changes since baseline)");
        r
    } else {
        let j = join_chars(&secs, "\n\n");
        string_of(&j)
    }
}


/// Rendering for the first cycle, when the baseline commit has no backlog:
/// every current task is an addition.
pub open spec fn additions_only(cur: Seq<Task>) -> Seq<char> {
    if cur.len() == 0 {
        "(no baseline; current backlog is empty)"@
    } else {
        join(
            seq![
                "(no baseline found at this SHA — rendering current backlog as additions)"@,
                Seq::<char>::empty(),
                "tasks added:"@,
            ] + cur.map_values(|t: Task| "  + "@ + t.id@ + ": "@ + t.title@),
            "\n"@,
        )
    }
}

/// Fallback renderer for the "baseline-backlog-missing" case.
pub fn render_additions_only(current: &BacklogFile) -> (r: String)
    ensures
        r@ == additions_only(current.tasks@),
{
    if current.tasks.len() == 0 {
        let mut r = String::new();
        crate::text::push_str(&mut r, "(no baseline; current backlog is empty)");
        return r;
    }
    let mut parts: Vec<Vec<char>> = Vec::new();
    parts.push(chars_of("(no baseline found at this SHA — rendering current backlog as additions)"));
    parts.push(Vec::new());
    parts.push(chars_of("tasks added:"));
    let ghost head = views(parts@);
    let ghost items = current.tasks@.map_values(|t: Task| "  + "@ + t.id@ + ": "@ + t.title@);
    let mut i: usize = 0;
    while i < current.tasks.len()
        invariant
            i <= current.tasks.len(),
            items == current.tasks@.map_values(|t: Task| "  + "@ + t.id@ + ": "@ + t.title@),
            views(parts@) == head + items.take(i as int),
        decreases current.tasks.len() - i,
    {
        let mut v: Vec<char> = Vec::new();
        push_id_prefix(&mut v, "  + ", &current.tasks[i].id);
        extend_str(&mut v, current.tasks[i].title.as_str());
        let ghost prev = views(parts@);
        assert(v@ =~= items[i as int]);
        parts.push(v);
        assert(views(parts@) =~= prev.push(items[i as int]));
        assert(items.take(i + 1) =~= items.take(i as int).push(items[i as int]));
        i += 1;
    }
    assert(items.take(current.tasks.len() as int) =~= items);
    assert(head =~= seq![
        "(no baseline found at this SHA — rendering current backlog as additions)"@,
        Seq::<char>::empty(),
        "tasks added:"@,
    ]);
    let j = join_chars(&parts, "\n");
    string_of(&j)
}

/// What a lookup of the baseline backlog found.
pub enum BaselineResult {
    Found(BacklogFile),
    Missing,
    Error(String),
}

/// The prompt text for a baseline SHA, the current backlog (or the error
/// reading it) and the baseline lookup outcome.
pub open spec fn transitions_text(
    sha: Seq<char>,
    current: Result<BacklogFile, String>,
    baseline: BaselineResult,
) -> Seq<char> {
    if sha.len() == 0 {
        "(no baseline SHA available; first cycle has no prior state to diff)"@
    } else {
        match current {
            Err(e) => "(failed to read current "@ + BACKLOG_FILENAME@ + ": "@ + e@ + ")"@,
            Ok(c) => match baseline {
                BaselineResult::Missing => additions_only(c.tasks@),
                BaselineResult::Error(m) => "(baseline lookup failed: "@ + m@ + ")"@,
                BaselineResult::Found(b) => diff_summary(b.tasks@, c.tasks@),
            },
        }
    }
}

/// Backlog delta text for the analyse-work prompt. Always returns a
/// printable string; every failure becomes an explanatory placeholder.
/// `current` is the current backlog or the message of the error reading
/// it; `baseline` is what the lookup at `baseline_sha` found (consulted
/// only when the SHA is non-empty and the current backlog was read).
pub fn backlog_transitions(
    baseline_sha: &str,
    current: &Result<BacklogFile, String>,
    baseline: &BaselineResult,
) -> (r: String)
    ensures
        r@ == transitions_text(baseline_sha@, *current, *baseline),
{
    if baseline_sha.is_empty() {
        let mut r = String::new();
        crate::text::push_str(&mut r, "(no baseline SHA available; first cycle has no prior state to diff)");
        return r;
    }
    match current {
        Err(e) => {
            let mut r = String::new();
            crate::text::push_str(&mut r, "(failed to read current ");
            crate::text::push_str(&mut r, BACKLOG_FILENAME);
            crate::text::push_str(&mut r, ": ");
            crate::text::push_str(&mut r, e.as_str());
            crate::text::push_str(&mut r, ")");
            r
        },
        Ok(c) => match baseline {
            BaselineResult::Missing => render_additions_only(c),
            BaselineResult::Error(m) => {
                let mut r = String::new();
                crate::text::push_str(&mut r, "(baseline lookup failed: ");
                crate::text::push_str(&mut r, m.as_str());
                crate::text::push_str(&mut r, ")");
                r
            },
            BaselineResult::Found(b) => {
                let t = compute_transitions(b, c);
                render_transitions(&t)
            },
        },
    }
}

} // verus!
