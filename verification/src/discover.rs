//! Decisions of cross-project relationship discovery: which catalogued
//! projects a run analyses, whether the edge-inference stage runs, and how
//! the run ends. Running the analysis sessions and reading and writing
//! the proposals file belong to the binary.

use vstd::prelude::*;

use crate::ontology::{
    add_edge, canonical, canonicalise_for_kind, clone_edge, edge_problem, edges_view, has_key, key_position, same_key, same_participants,
    validate, Edge, EdgeKind, EdgeView,
};
use crate::order::{lemma_lex_irreflexive, lemma_lex_total, lemma_lex_transitive, lex_less, lex_lt, strictly_sorted, views_of};
use crate::paths::{join_path, path_join};
use crate::projects::{entries, first_index, names_of, ProjectEntry, ProjectsCatalog};
use crate::prompt::{braced_list, leftover_names, leftover_list, present, UNRESOLVED_TOKEN_PATTERN};
use crate::regex_support::{opt_strs, regex_capture_group1_all};
use crate::text::{clone_string, decimal, extend_str, owned, push_decimal, replace_all, replace_str, str_eq, string_of};

verus! {

pub const PROPOSALS_FILE: &'static str = "discover-proposals.yaml";

pub const DEFAULT_CONCURRENCY: usize = 4;

pub struct RunDiscoverOptions {
    pub project_filter: Option<String>,
    pub concurrency: Option<usize>,
    pub apply: bool,
}

/// `<config_root>/discover-proposals.yaml`.
pub fn proposals_path(config_root: &str) -> (r: String)
    ensures
        r@ == path_join(config_root@, "discover-proposals.yaml"@),
{
    join_path(config_root, PROPOSALS_FILE)
}

/// The number of analyses run at once: the requested number (or the
/// default), at least one.
pub fn effective_concurrency(requested: Option<usize>) -> (r: usize)
    ensures
        r == match requested {
            Some(n) => if n == 0 {
                1
            } else {
                n
            },
            None => DEFAULT_CONCURRENCY,
        },
        r >= 1,
{
    let n = match requested {
        Some(n) => n,
        None => DEFAULT_CONCURRENCY,
    };
    if n == 0 {
        1
    } else {
        n
    }
}

fn clone_entry(e: &ProjectEntry) -> (r: ProjectEntry)
    ensures
        r.name@ == e.name@,
        r.path@ == e.path@,
{
    ProjectEntry { name: clone_string(&e.name), path: clone_string(&e.path) }
}

/// The projects a run analyses: all of them, or the one named by the
/// filter. An empty catalog, or a filter naming no project, is an error.
pub fn projects_to_analyse(catalog: &ProjectsCatalog, project_filter: Option<&str>) -> (r: Result<
    Vec<ProjectEntry>,
    String,
>)
    ensures
        catalog.projects@.len() == 0 ==> (r matches Err(e) && e@ == "projects catalog is empty; nothing to discover"@),
        catalog.projects@.len() > 0 ==> match project_filter {
            None => r matches Ok(ps) && entries(ps@) == entries(catalog.projects@),
            Some(name) => match first_index(names_of(entries(catalog.projects@)), name@) {
                Some(i) => r matches Ok(ps) && entries(ps@) == seq![entries(catalog.projects@)[i]],
                None => r matches Err(e) && e@ == "project '"@ + name@ + "' not in catalog"@,
            },
        },
{
    if catalog.projects.len() == 0 {
        return Err(owned("projects catalog is empty; nothing to discover"));
    }
    match project_filter {
        None => {
            let mut out: Vec<ProjectEntry> = Vec::new();
            let mut i: usize = 0;
            while i < catalog.projects.len()
                invariant
                    i <= catalog.projects.len(),
                    entries(out@) == entries(catalog.projects@.take(i as int)),
                decreases catalog.projects.len() - i,
            {
                let ghost before = out@;
                out.push(clone_entry(&catalog.projects[i]));
                assert(entries(out@) =~= entries(before).push(entries(catalog.projects@)[i as int]));
                assert(entries(catalog.projects@.take(i + 1)) =~= entries(catalog.projects@.take(i as int)).push(
                    entries(catalog.projects@)[i as int],
                ));
                i += 1;
            }
            assert(catalog.projects@.take(i as int) =~= catalog.projects@);
            Ok(out)
        },
        Some(name) => match catalog.find_by_name(name) {
            Some(e) => {
                let mut out: Vec<ProjectEntry> = Vec::new();
                out.push(clone_entry(e));
                proof {
                    let i = first_index(names_of(entries(catalog.projects@)), name@)->0;
                    assert(entries(out@) =~= seq![entries(catalog.projects@)[i]]);
                }
                Ok(out)
            },
            None => {
                let mut v: Vec<char> = Vec::new();
                extend_str(&mut v, "project '");
                extend_str(&mut v, name);
                extend_str(&mut v, "' not in catalog");
                Err(string_of(&v))
            },
        },
    }
}

/// Whether the edge-inference stage runs this time.
#[derive(Debug, Clone, Copy, PartialEq, Eq)]
pub enum Stage2Decision {
    /// Every surface came from cache, nothing failed, and proposals
    /// exist: keep them (and any edits made to them).
    ReuseExisting,
    /// No surface at all: record the failures without inferring edges.
    NoSurfaces,
    /// Infer edges over the surfaces.
    Run,
}

pub fn decide_stage2(any_fresh_surface: bool, failures: usize, proposals_exist: bool, surfaces: usize) -> (r:
    Stage2Decision)
    ensures
        r == if !any_fresh_surface && failures == 0 && proposals_exist && surfaces > 0 {
            Stage2Decision::ReuseExisting
        } else if surfaces == 0 {
            Stage2Decision::NoSurfaces
        } else {
            Stage2Decision::Run
        },
{
    if !any_fresh_surface && failures == 0 && proposals_exist && surfaces > 0 {
        Stage2Decision::ReuseExisting
    } else if surfaces == 0 {
        Stage2Decision::NoSurfaces
    } else {
        Stage2Decision::Run
    }
}

/// How a run ends: with an error when this run's analyses failed (a run
/// that reused earlier proposals reports nothing stale).
pub fn discover_exit(decision: Stage2Decision, failures_in_file: usize) -> (r: Result<(), String>)
    ensures
        (decision != Stage2Decision::ReuseExisting && failures_in_file > 0) ==> (r matches Err(e) && e@
            == "discover completed with Stage 1 failures — see the failures section of the proposals file"@),
        !(decision != Stage2Decision::ReuseExisting && failures_in_file > 0) ==> r is Ok,
{
    let reused = match decision {
        Stage2Decision::ReuseExisting => true,
        _ => false,
    };
    if !reused && failures_in_file > 0 {
        return Err(
            owned(
                "discover completed with Stage 1 failures — see the failures section of the proposals file",
            ),
        );
    }
    Ok(())
}

/// One edge proposed by the inference stage.
pub struct ProposalRecord {
    pub kind: EdgeKind,
    pub lifecycle: String,
    pub participants: Vec<String>,
    pub evidence_grade: String,
    pub evidence_fields: Vec<String>,
    pub rationale: String,
}

/// A proposed directed edge that reverses a stored one.
pub struct KindConflict {
    pub proposed: Edge,
    pub existing: Edge,
}

/// What merging proposals did.
pub struct ApplyReport {
    pub added: usize,
    pub already_present: usize,
    pub kind_conflicts: Vec<KindConflict>,
}

/// A proposal as the edge it would store (participants in stored form).
pub open spec fn proposed_edge(p: ProposalRecord) -> EdgeView {
    EdgeView {
        kind: p.kind.name@,
        directed: p.kind.directed,
        lifecycle: p.lifecycle@,
        participants: canonical(p.kind.directed, views_of(p.participants@)),
        evidence_grade: p.evidence_grade@,
        evidence_fields: views_of(p.evidence_fields@),
        rationale: p.rationale@,
    }
}

pub open spec fn proposals_view(ps: Seq<ProposalRecord>) -> Seq<EdgeView> {
    ps.map_values(|p: ProposalRecord| proposed_edge(p))
}

/// `a` is the pair `b` the other way round.
pub open spec fn reversed(a: Seq<Seq<char>>, b: Seq<Seq<char>>) -> bool {
    a.len() == 2 && b.len() == 2 && a[0] == b[1] && a[1] == b[0]
}

/// Whether `a` is the pair `b` the other way round.
pub fn participants_reversed(a: &Vec<String>, b: &Vec<String>) -> (r: bool)
    ensures
        r == reversed(views_of(a@), views_of(b@)),
{
    a.len() == 2 && b.len() == 2 && str_eq(a[0].as_str(), b[1].as_str()) && str_eq(a[1].as_str(), b[0].as_str())
}

/// `existing` joins the proposed pair the other way round at the same
/// kind and lifecycle.
pub open spec fn reverses(existing: EdgeView, proposed: EdgeView) -> bool {
    &&& existing.kind == proposed.kind
    &&& existing.lifecycle == proposed.lifecycle
    &&& existing.participants != proposed.participants
    &&& reversed(existing.participants, proposed.participants)
}

pub open spec fn is_first_conflict(es: Seq<EdgeView>, p: EdgeView, i: int) -> bool {
    &&& 0 <= i < es.len()
    &&& reverses(es[i], p)
    &&& forall|j: int| 0 <= j < i ==> !reverses(#[trigger] es[j], p)
}

/// The first stored edge that a proposed directed edge reverses; a
/// symmetric proposal conflicts with nothing. Proposing the same edge
/// again, or another kind on the same pair, is no conflict.
pub open spec fn first_conflict(es: Seq<EdgeView>, p: EdgeView) -> Option<int> {
    if p.directed && exists|i: int| is_first_conflict(es, p, i) {
        Some(choose|i: int| is_first_conflict(es, p, i))
    } else {
        None
    }
}

proof fn lemma_first_conflict_is(es: Seq<EdgeView>, p: EdgeView, i: int)
    requires
        p.directed,
        is_first_conflict(es, p, i),
    ensures
        first_conflict(es, p) == Some(i),
{
    let c = choose|j: int| is_first_conflict(es, p, j);
    assert(is_first_conflict(es, p, c));
    if c < i {
        assert(!reverses(es[c], p));
    } else if i < c {
        assert(!reverses(es[i], p));
    }
}

/// The stored edge the proposed one conflicts with, by position.
pub fn find_directional_conflict(edges: &Vec<Edge>, proposed: &Edge) -> (r: Option<usize>)
    ensures
        match r {
            Some(i) => first_conflict(edges_view(edges@), proposed@) == Some(i as int),
            None => first_conflict(edges_view(edges@), proposed@) is None,
        },
{
    let ghost ev = edges_view(edges@);
    if !proposed.kind.directed {
        return None;
    }
    let mut i: usize = 0;
    while i < edges.len()
        invariant
            i <= edges.len(),
            ev == edges_view(edges@),
            proposed.kind.directed,
            forall|j: int| 0 <= j < i ==> !reverses(#[trigger] ev[j], proposed@),
        decreases edges.len() - i,
    {
        let e = &edges[i];
        assert(ev[i as int] == e@);
        let a = &e.participants;
        let b = &proposed.participants;
        let rev = participants_reversed(a, b);
        if str_eq(e.kind.name.as_str(), proposed.kind.name.as_str()) && str_eq(
            e.lifecycle.as_str(),
            proposed.lifecycle.as_str(),
        ) && !same_participants(a, b) && rev {
            proof {
                assert(is_first_conflict(ev, proposed@, i as int));
                lemma_first_conflict_is(ev, proposed@, i as int);
            }
            return Some(i);
        }
        i += 1;
    }
    None
}

/// The state of a merge: stored edges, edges added, proposals already
/// stored, conflicts (proposed, existing), and the problems of the
/// proposals skipped as invalid.
pub open spec fn apply_all(es: Seq<EdgeView>, ps: Seq<EdgeView>) -> (
    Seq<EdgeView>,
    nat,
    nat,
    Seq<(EdgeView, EdgeView)>,
    Seq<Seq<char>>,
)
    decreases ps.len(),
{
    if ps.len() == 0 {
        (es, 0, 0, seq![], seq![])
    } else {
        let prev = apply_all(es, ps.drop_last());
        let q = ps.last();
        match edge_problem(q) {
            Some(m) => (prev.0, prev.1, prev.2, prev.3, prev.4.push(m)),
            None => match first_conflict(prev.0, q) {
                Some(i) => (prev.0, prev.1, prev.2, prev.3.push((q, prev.0[i])), prev.4),
                None => if has_key(prev.0, q) {
                    (prev.0, prev.1, prev.2 + 1, prev.3, prev.4)
                } else {
                    (prev.0.push(q), prev.1 + 1, prev.2, prev.3, prev.4)
                },
            },
        }
    }
}

/// Every proposal is accounted for exactly once: added, already present,
/// reported as a conflict, or skipped as invalid.
pub proof fn apply_accounts_for_every_proposal(es: Seq<EdgeView>, ps: Seq<EdgeView>)
    ensures
        apply_all(es, ps).1 + apply_all(es, ps).2 + apply_all(es, ps).3.len() + apply_all(es, ps).4.len() == ps.len(),
    decreases ps.len(),
{
    if ps.len() > 0 {
        apply_accounts_for_every_proposal(es, ps.drop_last());
    }
}

/// Each reported conflict pairs a directed proposal with a stored edge of
/// the same kind and lifecycle joining the same two participants the other
/// way round; that edge is still stored after the merge.
pub proof fn conflicts_reverse_stored_edges(es: Seq<EdgeView>, ps: Seq<EdgeView>)
    ensures
        forall|k: int|
            0 <= k < apply_all(es, ps).3.len() ==> {
                let c = #[trigger] apply_all(es, ps).3[k];
                &&& c.0.directed
                &&& reverses(c.1, c.0)
                &&& apply_all(es, ps).0.contains(c.1)
            },
    decreases ps.len(),
{
    if ps.len() > 0 {
        conflicts_reverse_stored_edges(es, ps.drop_last());
        let prev = apply_all(es, ps.drop_last());
        let cur = apply_all(es, ps);
        let q = ps.last();
        assert forall|k: int| 0 <= k < cur.3.len() implies {
            let c = #[trigger] cur.3[k];
            &&& c.0.directed
            &&& reverses(c.1, c.0)
            &&& cur.0.contains(c.1)
        } by {
            if k < prev.3.len() {
                let c = prev.3[k];
                assert(cur.3[k] == c);
                assert(prev.0.contains(c.1));
                let j = choose|j: int| 0 <= j < prev.0.len() && prev.0[j] == c.1;
                if cur.0 != prev.0 {
                    assert(cur.0 == prev.0.push(q));
                    assert(cur.0[j] == c.1);
                }
            } else {
                let i = first_conflict(prev.0, q)->0;
                assert(is_first_conflict(prev.0, q, i)) by {
                    let w = choose|w: int| is_first_conflict(prev.0, q, w);
                }
                assert(cur.3[k] == (q, prev.0[i]));
                assert(cur.0 == prev.0);
                assert(cur.0[i] == prev.0[i]);
            }
        }
    }
}

pub open spec fn conflicts_view(cs: Seq<KindConflict>) -> Seq<(EdgeView, EdgeView)> {
    cs.map_values(|c: KindConflict| (c.proposed@, c.existing@))
}

/// Merge proposals into the stored edges, in order: a proposal that
/// breaks an edge rule is skipped (its problem is returned), one that
/// reverses a stored directed edge is reported as a conflict and not
/// stored, one already stored is counted, and the rest are appended.
pub fn apply_proposals(edges: &mut Vec<Edge>, proposals: Vec<ProposalRecord>) -> (r: (ApplyReport, Vec<String>))
    ensures
        ({
            let res = apply_all(edges_view(old(edges)@), proposals_view(proposals@));
            &&& edges_view(final(edges)@) == res.0
            &&& r.0.added == res.1
            &&& r.0.already_present == res.2
            &&& conflicts_view(r.0.kind_conflicts@) == res.3
            &&& views_of(r.1@) == res.4
        }),
        r.0.added + r.0.already_present + r.0.kind_conflicts@.len() + r.1@.len() == proposals@.len(),
{
    let ghost ov = edges_view(edges@);
    let ghost pv = proposals_view(proposals@);
    assert(pv.len() == proposals.len());
    let mut rest = proposals;
    let mut added: usize = 0;
    let mut already_present: usize = 0;
    let mut kind_conflicts: Vec<KindConflict> = Vec::new();
    let mut skipped: Vec<String> = Vec::new();
    let ghost mut k: int = 0;
    assert(pv.take(0) =~= Seq::<EdgeView>::empty());
    assert(pv.skip(0) =~= pv);
    assert(conflicts_view(kind_conflicts@) =~= Seq::<(EdgeView, EdgeView)>::empty());
    assert(views_of(skipped@) =~= Seq::<Seq<char>>::empty());
    while rest.len() > 0
        invariant
            0 <= k <= pv.len(),
            ov == edges_view(old(edges)@),
            proposals_view(rest@) == pv.skip(k),
            edges_view(edges@) == apply_all(ov, pv.take(k)).0,
            added == apply_all(ov, pv.take(k)).1,
            already_present == apply_all(ov, pv.take(k)).2,
            conflicts_view(kind_conflicts@) == apply_all(ov, pv.take(k)).3,
            views_of(skipped@) == apply_all(ov, pv.take(k)).4,
            added + already_present <= k,
            pv.len() <= usize::MAX,
        decreases rest.len(),
    {
        let ghost pre = rest@;
        let p = rest.remove(0);
        let ghost q = proposed_edge(p);
        proof {
            assert(proposals_view(pre).len() == pre.len());
            assert(k < pv.len());
            assert(proposals_view(pre)[0] == q);
            assert(pv.skip(k)[0] == pv[k]);
            assert(pv.take(k + 1).drop_last() =~= pv.take(k));
            assert(pv.take(k + 1).last() == pv[k]);
            assert forall|j: int| 0 <= j < rest@.len() implies #[trigger] proposals_view(rest@)[j] == pv.skip(k + 1)[j] by {
                assert(rest@[j] == pre[j + 1]);
                assert(proposals_view(pre)[j + 1] == proposed_edge(pre[j + 1]));
                assert(pv.skip(k)[j + 1] == pv[k + 1 + j]);
            }
            assert(proposals_view(rest@) =~= pv.skip(k + 1));
            apply_accounts_for_every_proposal(ov, pv.take(k));
        }
        let ghost prev = apply_all(ov, pv.take(k));
        let participants = canonicalise_for_kind(&p.kind, p.participants);
        let proposed = Edge {
            kind: p.kind,
            lifecycle: p.lifecycle,
            participants,
            evidence_grade: p.evidence_grade,
            evidence_fields: p.evidence_fields,
            rationale: p.rationale,
        };
        assert(proposed@ == q);
        match validate(&proposed) {
            Err(m) => {
                let ghost before = views_of(skipped@);
                skipped.push(m);
                assert(views_of(skipped@) =~= before.push(m@));
            },
            Ok(()) => {
                match find_directional_conflict(edges, &proposed) {
                    Some(i) => {
                        let existing = clone_edge(&edges[i]);
                        proof {
                            assert(edges_view(edges@)[i as int] == edges@[i as int]@);
                        }
                        let ghost before = conflicts_view(kind_conflicts@);
                        kind_conflicts.push(KindConflict { proposed, existing });
                        assert(conflicts_view(kind_conflicts@) =~= before.push((q, prev.0[i as int])));
                    },
                    None => {
                        match add_edge(edges, proposed) {
                            Ok(true) => {
                                added = added + 1;
                            },
                            _ => {
                                already_present = already_present + 1;
                            },
                        }
                    },
                }
            },
        }
        proof {
            k = k + 1;
        }
    }
    proof {
        assert(pv.take(k) =~= pv);
        apply_accounts_for_every_proposal(ov, pv);
        assert(conflicts_view(kind_conflicts@).len() == kind_conflicts@.len());
        assert(views_of(skipped@).len() == skipped@.len());
    }
    (ApplyReport { added, already_present, kind_conflicts }, skipped)
}

/// Every valid proposal of `ps` is stored in `es` or reverses an edge of it.
pub open spec fn settled(es: Seq<EdgeView>, ps: Seq<EdgeView>) -> bool {
    forall|j: int|
        0 <= j < ps.len() && edge_problem(#[trigger] ps[j]) is None ==> has_key(es, ps[j]) || first_conflict(
            es,
            ps[j],
        ) is Some
}

proof fn lemma_conflict_survives_push(es: Seq<EdgeView>, q: EdgeView, x: EdgeView)
    requires
        first_conflict(es, q) is Some,
    ensures
        first_conflict(es.push(x), q) is Some,
{
    let i = first_conflict(es, q)->0;
    assert(is_first_conflict(es, q, i));
    assert(is_first_conflict(es.push(x), q, i));
}

proof fn lemma_key_survives_push(es: Seq<EdgeView>, q: EdgeView, x: EdgeView)
    requires
        has_key(es, q),
    ensures
        has_key(es.push(x), q),
{
    let i = choose|i: int| 0 <= i < es.len() && same_key(es[i], q);
    assert(es.push(x)[i] == es[i]);
}

proof fn lemma_settled_push(es: Seq<EdgeView>, ps: Seq<EdgeView>, x: EdgeView)
    requires
        settled(es, ps),
    ensures
        settled(es.push(x), ps),
{
    assert forall|j: int| 0 <= j < ps.len() && edge_problem(#[trigger] ps[j]) is None implies has_key(
        es.push(x),
        ps[j],
    ) || first_conflict(es.push(x), ps[j]) is Some by {
        if has_key(es, ps[j]) {
            lemma_key_survives_push(es, ps[j], x);
        } else {
            lemma_conflict_survives_push(es, ps[j], x);
        }
    }
}

/// After a merge, every valid proposal is stored or in conflict.
proof fn lemma_apply_settles(es: Seq<EdgeView>, ps: Seq<EdgeView>)
    ensures
        settled(apply_all(es, ps).0, ps),
    decreases ps.len(),
{
    if ps.len() > 0 {
        let init = ps.drop_last();
        lemma_apply_settles(es, init);
        let prev = apply_all(es, init);
        let q = ps.last();
        if edge_problem(q) is None && first_conflict(prev.0, q) is None && !has_key(prev.0, q) {
            lemma_settled_push(prev.0, init, q);
            assert(prev.0.push(q)[prev.0.len() as int] == q);
            assert(same_key(prev.0.push(q)[prev.0.len() as int], q));
        }
        let now = apply_all(es, ps).0;
        assert forall|j: int| 0 <= j < ps.len() && edge_problem(#[trigger] ps[j]) is None implies has_key(
            now,
            ps[j],
        ) || first_conflict(now, ps[j]) is Some by {
            if j < init.len() {
                assert(init[j] == ps[j]);
            }
        }
    }
}

/// Merging proposals that are all settled changes nothing and adds nothing.
proof fn lemma_apply_settled_is_noop(es: Seq<EdgeView>, ps: Seq<EdgeView>)
    requires
        settled(es, ps),
    ensures
        apply_all(es, ps).0 == es,
        apply_all(es, ps).1 == 0,
    decreases ps.len(),
{
    if ps.len() > 0 {
        let init = ps.drop_last();
        assert forall|j: int| 0 <= j < init.len() && edge_problem(#[trigger] init[j]) is None implies has_key(
            es,
            init[j],
        ) || first_conflict(es, init[j]) is Some by {
            assert(init[j] == ps[j]);
        }
        lemma_apply_settled_is_noop(es, init);
        assert(ps[ps.len() - 1] == ps.last());
    }
}

/// Merging the same proposals a second time stores nothing new: every
/// proposal is then already present, in conflict, or invalid.
pub proof fn apply_twice_adds_nothing(edges: Seq<EdgeView>, proposals: Seq<EdgeView>)
    ensures
        apply_all(apply_all(edges, proposals).0, proposals).0 == apply_all(edges, proposals).0,
        apply_all(apply_all(edges, proposals).0, proposals).1 == 0,
{
    lemma_apply_settles(edges, proposals);
    lemma_apply_settled_is_noop(apply_all(edges, proposals).0, proposals);
}

pub const SURFACE_SCHEMA_VERSION: u32 = 1;

pub const PROPOSALS_SCHEMA_VERSION: u32 = 1;

/// The state of a project's subtree: its committed tree and a hash of its
/// uncommitted changes (empty when clean). Both must match for a cached
/// analysis to be reused.
pub struct ProjectState {
    pub tree_sha: String,
    pub dirty_hash: String,
}

/// What the analysis of one project found.
pub struct SurfaceRecord {
    pub purpose: String,
    pub consumes_files: Vec<String>,
    pub produces_files: Vec<String>,
    pub network_endpoints: Vec<String>,
    pub data_formats: Vec<String>,
    pub external_tools_spawned: Vec<String>,
    pub explicit_cross_project_mentions: Vec<String>,
    pub notes: String,
}

/// The cached analysis of one project, keyed by its state.
pub struct SurfaceFile {
    pub schema_version: u32,
    pub project: String,
    pub tree_sha: String,
    pub dirty_hash: String,
    pub analysed_at: String,
    pub surface: SurfaceRecord,
}

/// A project whose analysis failed.
pub struct Stage1Failure {
    pub project: String,
    pub error: String,
}

/// The proposals file: the project states it was made from (by project
/// name, ascending), the proposals and the analysis failures.
pub struct ProposalsFile {
    pub schema_version: u32,
    pub generated_at: String,
    pub source_project_states: Vec<(String, ProjectState)>,
    pub proposals: Vec<ProposalRecord>,
    pub failures: Vec<Stage1Failure>,
}

/// How the edge-inference session runs.
pub struct Stage2Config {
    pub config_root: String,
    pub model: String,
    pub prompt_template: String,
    pub timeout_secs: u64,
}

/// Accept a parsed proposals file of the version this library writes.
pub fn check_proposals(file: ProposalsFile, path: &str) -> (r: Result<ProposalsFile, String>)
    ensures
        file.schema_version == PROPOSALS_SCHEMA_VERSION ==> r == Ok::<ProposalsFile, String>(file),
        file.schema_version != PROPOSALS_SCHEMA_VERSION ==> (r matches Err(e) && e@ == path@ + " has schema_version "@
            + decimal(file.schema_version as nat) + " but this ravel-lite expects "@ + decimal(
            PROPOSALS_SCHEMA_VERSION as nat,
        )),
{
    if file.schema_version != PROPOSALS_SCHEMA_VERSION {
        let mut v: Vec<char> = Vec::new();
        extend_str(&mut v, path);
        extend_str(&mut v, " has schema_version ");
        push_decimal(&mut v, file.schema_version as u64);
        extend_str(&mut v, " but this ravel-lite expects ");
        push_decimal(&mut v, PROPOSALS_SCHEMA_VERSION as u64);
        return Err(string_of(&v));
    }
    Ok(file)
}

/// Refuse an inference prompt that still holds a `{{NAME}}` placeholder,
/// naming every distinct one, ascending.
pub fn assert_no_dangling_tokens(prompt: &str) -> (r: Result<(), String>)
    ensures
        present(leftover_names(prompt@)).len() == 0 ==> r is Ok,
        present(leftover_names(prompt@)).len() > 0 ==> (r matches Err(m) && m@
            == "Stage 2 prompt has unresolved token(s) after substitution: "@ + braced_list(
            present(leftover_names(prompt@)),
        )),
{
    let names = match regex_capture_group1_all(UNRESOLVED_TOKEN_PATTERN, prompt) {
        Some(v) => v,
        None => Vec::new(),
    };
    assert(crate::prompt::opt_views(names@) == leftover_names(prompt@));
    match leftover_list(&names) {
        None => Ok(()),
        Some(list) => {
            let mut v: Vec<char> = Vec::new();
            extend_str(&mut v, "Stage 2 prompt has unresolved token(s) after substitution: ");
            extend_str(&mut v, list.as_str());
            Err(string_of(&v))
        },
    }
}

/// The inference prompt: the template with the ontology's kinds, the
/// config root and the analyses substituted, in that order.
pub open spec fn stage2_prompt_text(template: Seq<char>, kinds: Seq<char>, config_root: Seq<char>, surfaces: Seq<char>) -> Seq<
    char,
> {
    replace_all(
        replace_all(replace_all(template, "{{ONTOLOGY_KINDS}}"@, kinds), "{{CONFIG_ROOT}}"@, config_root),
        "{{SURFACE_RECORDS_YAML}}"@,
        surfaces,
    )
}

/// Compose the inference prompt and refuse it if a placeholder is left.
pub fn compose_stage2_prompt(template: &str, kinds: &str, config_root: &str, surfaces_yaml: &str) -> (r: Result<
    String,
    String,
>)
    ensures
        ({
            let x = stage2_prompt_text(template@, kinds@, config_root@, surfaces_yaml@);
            let left = present(leftover_names(x));
            &&& left.len() == 0 ==> (r matches Ok(p) && p@ == x)
            &&& left.len() > 0 ==> (r matches Err(m) && m@
                == "Stage 2 prompt has unresolved token(s) after substitution: "@ + braced_list(left))
        }),
{
    proof {
        reveal_strlit("{{ONTOLOGY_KINDS}}");
        reveal_strlit("{{CONFIG_ROOT}}");
        reveal_strlit("{{SURFACE_RECORDS_YAML}}");
    }
    let a = replace_str(template, "{{ONTOLOGY_KINDS}}", kinds);
    let b = replace_str(a.as_str(), "{{CONFIG_ROOT}}", config_root);
    let c = replace_str(b.as_str(), "{{SURFACE_RECORDS_YAML}}", surfaces_yaml);
    match assert_no_dangling_tokens(c.as_str()) {
        Err(m) => Err(m),
        Ok(()) => Ok(c),
    }
}

/// The state recorded for each analysed project: the last analysis of
/// each name wins.
pub open spec fn surface_states(surfaces: Seq<SurfaceFile>) -> Map<Seq<char>, (Seq<char>, Seq<char>)>
    decreases surfaces.len(),
{
    if surfaces.len() == 0 {
        Map::empty()
    } else {
        let s = surfaces.last();
        surface_states(surfaces.drop_last()).insert(s.project@, (s.tree_sha@, s.dirty_hash@))
    }
}

pub open spec fn state_keys(v: Seq<(String, ProjectState)>) -> Seq<Seq<char>> {
    v.map_values(|e: (String, ProjectState)| e.0@)
}

/// `v` lists the states of `m` by project name, ascending.
pub open spec fn lists_states(v: Seq<(String, ProjectState)>, m: Map<Seq<char>, (Seq<char>, Seq<char>)>) -> bool {
    &&& strictly_sorted(state_keys(v))
    &&& state_keys(v).to_set() == m.dom()
    &&& forall|i: int|
        0 <= i < v.len() ==> m[(#[trigger] v[i]).0@] == (v[i].1.tree_sha@, v[i].1.dirty_hash@)
}

fn record_state(v: &mut Vec<(String, ProjectState)>, project: &String, tree_sha: &String, dirty_hash: &String)
    requires
        strictly_sorted(state_keys(old(v)@)),
    ensures
        forall|m: Map<Seq<char>, (Seq<char>, Seq<char>)>|
            lists_states(old(v)@, m) ==> lists_states(
                final(v)@,
                m.insert(project@, (tree_sha@, dirty_hash@)),
            ),
{
    let ghost ks = state_keys(v@);
    let mut k: usize = 0;
    while k < v.len() && lex_less(v[k].0.as_str(), project.as_str())
        invariant
            k <= v.len(),
            ks == state_keys(v@),
            forall|j: int| 0 <= j < k ==> lex_lt(#[trigger] ks[j], project@),
        decreases v.len() - k,
    {
        k += 1;
    }
    let st = ProjectState { tree_sha: clone_string(tree_sha), dirty_hash: clone_string(dirty_hash) };
    let ghost entry = (project@, (tree_sha@, dirty_hash@));
    let ghost old_v = v@;
    if k < v.len() && str_eq(v[k].0.as_str(), project.as_str()) {
        let key = clone_string(&v[k].0);
        v.set(k, (key, st));
        proof {
            assert(state_keys(v@) =~= ks);
            assert forall|m: Map<Seq<char>, (Seq<char>, Seq<char>)>| lists_states(old_v, m) implies lists_states(
                v@,
                m.insert(project@, (tree_sha@, dirty_hash@)),
            ) by {
                let m2 = m.insert(project@, (tree_sha@, dirty_hash@));
                assert(ks[k as int] == project@);
                assert(ks.to_set().contains(project@));
                assert(state_keys(v@).to_set() =~= m2.dom());
                assert forall|i: int| 0 <= i < v@.len() implies m2[(#[trigger] v@[i]).0@] == (
                    v@[i].1.tree_sha@,
                    v@[i].1.dirty_hash@,
                ) by {
                    if i != k {
                        assert(v@[i] == old_v[i]);
                        assert(ks[i] != ks[k as int]) by {
                            if i < k {
                                assert(lex_lt(ks[i], ks[k as int]));
                            } else {
                                assert(lex_lt(ks[k as int], ks[i]));
                            }
                            lemma_lex_irreflexive(ks[i]);
                        }
                    }
                }
            }
        }
    } else {
        proof {
            if k < v.len() {
                lemma_lex_total(ks[k as int], project@);
            }
        }
        v.insert(k, (clone_string(project), st));
        proof {
            let ys = state_keys(v@);
            assert(ys =~= ks.insert(k as int, project@));
            assert forall|p: int, q: int| 0 <= p < q < ys.len() implies lex_lt(#[trigger] ys[p], #[trigger] ys[q]) by {
                if q < k {
                    assert(ys[p] == ks[p] && ys[q] == ks[q]);
                } else if q == k {
                    assert(ys[p] == ks[p]);
                } else if p == k {
                    assert(ys[q] == ks[q - 1]);
                    if q - 1 > k {
                        lemma_lex_transitive(project@, ks[k as int], ks[q - 1]);
                    }
                } else if p < k {
                    assert(ys[p] == ks[p] && ys[q] == ks[q - 1]);
                } else {
                    assert(ys[p] == ks[p - 1] && ys[q] == ks[q - 1]);
                }
            }
            assert forall|m: Map<Seq<char>, (Seq<char>, Seq<char>)>| lists_states(old_v, m) implies lists_states(
                v@,
                m.insert(project@, (tree_sha@, dirty_hash@)),
            ) by {
                let m2 = m.insert(project@, (tree_sha@, dirty_hash@));
                assert forall|x: Seq<char>| ys.to_set().contains(x) <==> m2.dom().contains(x) by {
                    if ys.to_set().contains(x) {
                        let p = choose|p: int| 0 <= p < ys.len() && ys[p] == x;
                        if p < k {
                            assert(ks[p] == x);
                            assert(ks.to_set().contains(x));
                        } else if p > k {
                            assert(ks[p - 1] == x);
                            assert(ks.to_set().contains(x));
                        }
                    }
                    if m2.dom().contains(x) && x != project@ {
                        assert(ks.to_set().contains(x));
                        let p = choose|p: int| 0 <= p < ks.len() && ks[p] == x;
                        if p < k {
                            assert(ys[p] == x);
                        } else {
                            assert(ys[p + 1] == x);
                        }
                    }
                    if x == project@ {
                        assert(ys[k as int] == x);
                    }
                }
                assert(ys.to_set() =~= m2.dom());
                assert forall|i: int| 0 <= i < v@.len() implies m2[(#[trigger] v@[i]).0@] == (
                    v@[i].1.tree_sha@,
                    v@[i].1.dirty_hash@,
                ) by {
                    if i < k {
                        assert(v@[i] == old_v[i]);
                        assert(lex_lt(ks[i], project@));
                        lemma_lex_irreflexive(ks[i]);
                    } else if i > k {
                        assert(v@[i] == old_v[i - 1]);
                        assert(ks[i - 1] != project@) by {
                            lemma_lex_total(ks[k as int], project@);
                            if i - 1 > k {
                                assert(lex_lt(ks[k as int], ks[i - 1]));
                                lemma_lex_transitive(project@, ks[k as int], ks[i - 1]);
                            }
                            lemma_lex_irreflexive(project@);
                        }
                    }
                }
            }
        }
    }
}

/// The project states a proposals file records: the state of each
/// analysed project (the last analysis of a name wins), by name ascending.
pub fn source_project_states(surfaces: &Vec<SurfaceFile>) -> (r: Vec<(String, ProjectState)>)
    ensures
        lists_states(r@, surface_states(surfaces@)),
{
    let mut v: Vec<(String, ProjectState)> = Vec::new();
    let mut i: usize = 0;
    proof {
        assert(surfaces@.take(0) =~= Seq::<SurfaceFile>::empty());
        assert(state_keys(v@).to_set() =~= surface_states(surfaces@.take(0)).dom());
    }
    while i < surfaces.len()
        invariant
            i <= surfaces.len(),
            lists_states(v@, surface_states(surfaces@.take(i as int))),
        decreases surfaces.len() - i,
    {
        let s = &surfaces[i];
        proof {
            assert(surfaces@.take(i + 1).drop_last() =~= surfaces@.take(i as int));
            assert(surfaces@.take(i + 1).last() == *s);
        }
        record_state(&mut v, &s.project, &s.tree_sha, &s.dirty_hash);
        i += 1;
    }
    assert(surfaces@.take(surfaces.len() as int) =~= surfaces@);
    v
}

/// The proposals file the inference stage starts from: the analysed
/// projects' states, no proposals yet, and the analysis failures.
pub fn initial_proposals(surfaces: &Vec<SurfaceFile>, failures: Vec<Stage1Failure>, generated_at: String) -> (r:
    ProposalsFile)
    ensures
        r.schema_version == PROPOSALS_SCHEMA_VERSION,
        r.generated_at == generated_at,
        lists_states(r.source_project_states@, surface_states(surfaces@)),
        r.proposals@.len() == 0,
        r.failures == failures,
{
    ProposalsFile {
        schema_version: PROPOSALS_SCHEMA_VERSION,
        generated_at,
        source_project_states: source_project_states(surfaces),
        proposals: Vec::new(),
        failures,
    }
}

pub open spec fn surface_projects(ss: Seq<SurfaceFile>) -> Seq<Seq<char>> {
    ss.map_values(|s: SurfaceFile| s.project@)
}

pub open spec fn failed_projects(fs: Seq<Stage1Failure>) -> Seq<Seq<char>> {
    fs.map_values(|f: Stage1Failure| f.project@)
}

/// The catalogued projects, in catalog order, that a filtered run neither
/// analysed nor failed: each needs its cached analysis, or a failure.
pub open spec fn unaccounted(
    names: Seq<Seq<char>>,
    analysed: Seq<Seq<char>>,
    failed: Seq<Seq<char>>,
) -> Seq<Seq<char>>
    decreases names.len(),
{
    if names.len() == 0 {
        seq![]
    } else {
        let rest = unaccounted(names.drop_last(), analysed, failed);
        let n = names.last();
        if analysed.contains(n) || failed.contains(n) {
            rest
        } else {
            rest.push(n)
        }
    }
}

fn listed(v: &Vec<String>, name: &String) -> (r: bool)
    ensures
        r == views_of(v@).contains(name@),
{
    let mut i: usize = 0;
    while i < v.len()
        invariant
            i <= v.len(),
            forall|j: int| 0 <= j < i ==> v@[j]@ != name@,
        decreases v.len() - i,
    {
        if str_eq(v[i].as_str(), name.as_str()) {
            proof {
                assert(views_of(v@)[i as int] == name@);
            }
            return true;
        }
        i += 1;
    }
    proof {
        if views_of(v@).contains(name@) {
            let j = choose|j: int| 0 <= j < views_of(v@).len() && views_of(v@)[j] == name@;
            assert(v@[j]@ == name@);
        }
    }
    false
}

/// The catalogued projects a filtered run must still account for.
pub fn unaccounted_projects(catalog: &ProjectsCatalog, surfaces: &Vec<SurfaceFile>, failures: &Vec<Stage1Failure>) -> (r:
    Vec<String>)
    ensures
        views_of(r@) == unaccounted(
            names_of(entries(catalog.projects@)),
            surface_projects(surfaces@),
            failed_projects(failures@),
        ),
{
    let mut analysed: Vec<String> = Vec::new();
    let mut i: usize = 0;
    while i < surfaces.len()
        invariant
            i <= surfaces.len(),
            views_of(analysed@) == surface_projects(surfaces@.take(i as int)),
        decreases surfaces.len() - i,
    {
        let ghost before = views_of(analysed@);
        analysed.push(clone_string(&surfaces[i].project));
        assert(views_of(analysed@) =~= before.push(surfaces@[i as int].project@));
        assert(surface_projects(surfaces@.take(i + 1)) =~= surface_projects(surfaces@.take(i as int)).push(
            surfaces@[i as int].project@,
        ));
        i += 1;
    }
    assert(surfaces@.take(i as int) =~= surfaces@);
    let mut failed: Vec<String> = Vec::new();
    let mut j: usize = 0;
    while j < failures.len()
        invariant
            j <= failures.len(),
            views_of(failed@) == failed_projects(failures@.take(j as int)),
        decreases failures.len() - j,
    {
        let ghost before = views_of(failed@);
        failed.push(clone_string(&failures[j].project));
        assert(views_of(failed@) =~= before.push(failures@[j as int].project@));
        assert(failed_projects(failures@.take(j + 1)) =~= failed_projects(failures@.take(j as int)).push(
            failures@[j as int].project@,
        ));
        j += 1;
    }
    assert(failures@.take(j as int) =~= failures@);
    let ghost names = names_of(entries(catalog.projects@));
    let ghost an = views_of(analysed@);
    let ghost fl = views_of(failed@);
    let mut out: Vec<String> = Vec::new();
    let mut k: usize = 0;
    while k < catalog.projects.len()
        invariant
            k <= catalog.projects.len(),
            names == names_of(entries(catalog.projects@)),
            an == views_of(analysed@),
            fl == views_of(failed@),
            views_of(out@) == unaccounted(names.take(k as int), an, fl),
        decreases catalog.projects.len() - k,
    {
        let name = &catalog.projects[k].name;
        proof {
            assert(names.take(k + 1).drop_last() =~= names.take(k as int));
            assert(names.take(k + 1).last() == name@);
        }
        if !listed(&analysed, name) && !listed(&failed, name) {
            let ghost before = views_of(out@);
            out.push(clone_string(name));
            assert(views_of(out@) =~= before.push(name@));
        }
        k += 1;
    }
    assert(names.take(k as int) =~= names);
    out
}

pub open spec fn not_analysed_text() -> Seq<char> {
    "not yet analysed; run discover without --project to populate"@
}

/// The failure recorded for a project with no analysis cached.
pub fn not_analysed_failure(project: &str) -> (r: Stage1Failure)
    ensures
        r.project@ == project@,
        r.error@ == not_analysed_text(),
{
    Stage1Failure {
        project: owned(project),
        error: owned("not yet analysed; run discover without --project to populate"),
    }
}

} // verus!
