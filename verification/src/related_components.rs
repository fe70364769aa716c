//! Host side of the component-relationship graph at
//! `<config_root>/related-components.yaml`: naming edge participants by
//! the projects catalog, and deriving a plan's project.

use vstd::prelude::*;

use crate::ontology::{add_edge, canonical, canonicalise_for_kind, edge_problem, edges_view, has_key, Edge, EdgeKind, EdgeView};
use crate::order::{lemma_lex_irreflexive, lemma_lex_total, lex_lt, lex_less, views_of};
use crate::paths::{join_path, parent_of, path_join, path_key, path_parent};
use crate::projects::{entries, first_index, names_of, paths_of, ProjectsCatalog};
use crate::text::{clone_string, extend_str, owned, str_eq, string_of};

verus! {

/// The participants stored for an edge between `a` and `b`: as given for
/// a directed kind, in ascending order for a symmetric one.
pub open spec fn participants(directed: bool, a: Seq<char>, b: Seq<char>) -> Seq<Seq<char>> {
    if directed || !lex_lt(b, a) {
        seq![a, b]
    } else {
        seq![b, a]
    }
}

pub open spec fn strs(v: Seq<String>) -> Seq<Seq<char>> {
    v.map_values(|s: String| s@)
}

/// The participants to store for an edge of `kind` between `a` and `b`.
pub fn canonicalise_participants_for_kind(kind: &EdgeKind, a: &str, b: &str) -> (r: Vec<String>)
    ensures
        strs(r@) == participants(kind.directed, a@, b@),
{
    let directed = kind.directed;
    let mut v: Vec<String> = Vec::new();
    if directed || !lex_less(b, a) {
        v.push(owned(a));
        v.push(owned(b));
    } else {
        v.push(owned(b));
        v.push(owned(a));
    }
    assert(strs(v@) =~= participants(directed, a@, b@));
    v
}

pub open spec fn unknown_component_text(name: Seq<char>) -> Seq<char> {
    "component '"@ + name + "' is not in the projects catalog; add it with `ravel-lite state projects add --name "@
        + name + " --path <abs-path>`"@
}

/// Refuse a participant that is not a catalogued project name.
pub fn require_component_known(catalog: &ProjectsCatalog, name: &str) -> (r: Result<(), String>)
    ensures
        first_index(names_of(entries(catalog.projects@)), name@) is Some ==> r is Ok,
        first_index(names_of(entries(catalog.projects@)), name@) is None ==> (r matches Err(e) && e@
            == unknown_component_text(name@)),
{
    if catalog.find_by_name(name).is_some() {
        return Ok(());
    }
    let mut v: Vec<char> = Vec::new();
    extend_str(&mut v, "component '");
    extend_str(&mut v, name);
    extend_str(&mut v, "' is not in the projects catalog; add it with `ravel-lite state projects add --name ");
    extend_str(&mut v, name);
    extend_str(&mut v, " --path <abs-path>`");
    Err(string_of(&v))
}

/// The project of a plan: `<plan>/../..` of its absolute path.
pub open spec fn plan_project(absolute: Seq<char>) -> Result<Seq<char>, Seq<char>> {
    match path_parent(absolute) {
        None => Err("plan dir "@ + absolute + " has no parent"@),
        Some(p) => match path_parent(p) {
            None => Err("plan dir "@ + absolute + " has no grandparent (expected <project>/<state-dir>/<plan>)"@),
            Some(g) => Ok(g),
        },
    }
}

/// Derive a plan's project path from its absolute path.
pub fn plan_project_path(absolute: &str) -> (r: Result<String, String>)
    ensures
        match r {
            Ok(p) => plan_project(absolute@) == Ok::<Seq<char>, Seq<char>>(p@),
            Err(e) => plan_project(absolute@) == Err::<Seq<char>, Seq<char>>(e@),
        },
{
    match parent_of(absolute) {
        None => {
            let mut v: Vec<char> = Vec::new();
            extend_str(&mut v, "plan dir ");
            extend_str(&mut v, absolute);
            extend_str(&mut v, " has no parent");
            Err(string_of(&v))
        },
        Some(p) => match parent_of(p.as_str()) {
            None => {
                let mut v: Vec<char> = Vec::new();
                extend_str(&mut v, "plan dir ");
                extend_str(&mut v, absolute);
                extend_str(&mut v, " has no grandparent (expected <project>/<state-dir>/<plan>)");
                Err(string_of(&v))
            },
            Some(g) => Ok(g),
        },
    }
}

/// The catalogued name of a plan's project (given its absolute path).
pub fn resolve_plan_component_name(catalog: &ProjectsCatalog, absolute_plan_dir: &str) -> (r: Result<String, String>)
    ensures
        match plan_project(absolute_plan_dir@) {
            Err(e) => r matches Err(x) && x@ == e,
            Ok(p) => match first_index(paths_of(entries(catalog.projects@)), path_key(p)) {
                Some(i) => r matches Ok(n) && n@ == catalog.projects@[i].name@,
                None => r matches Err(x) && x@ == "plan's project "@ + p
                    + " is not in the catalog; run `ravel-lite run` once or add it with `ravel-lite state projects add`"@,
            },
        },
{
    let project = match plan_project_path(absolute_plan_dir) {
        Ok(p) => p,
        Err(e) => return Err(e),
    };
    match catalog.find_by_path(project.as_str()) {
        Some(entry) => Ok(clone_string(&entry.name)),
        None => {
            let mut v: Vec<char> = Vec::new();
            extend_str(&mut v, "plan's project ");
            extend_str(&mut v, project.as_str());
            extend_str(
                &mut v,
                " is not in the catalog; run `ravel-lite run` once or add it with `ravel-lite state projects add`",
            );
            Err(string_of(&v))
        },
    }
}

/// A plan's `related-plans.md`, inlined by `{{RELATED_PLANS}}`.
pub fn related_plans_file(plan_dir: &str) -> (r: String)
    ensures
        r@ == path_join(plan_dir@, "related-plans.md"@),
{
    join_path(plan_dir, "related-plans.md")
}

/// The edges of `es` other than those of `kind` at `lifecycle` between
/// exactly `ps`, in order.
pub open spec fn edges_without(es: Seq<EdgeView>, kind: Seq<char>, lifecycle: Seq<char>, ps: Seq<Seq<char>>) -> Seq<
    EdgeView,
>
    decreases es.len(),
{
    if es.len() == 0 {
        es
    } else {
        let rest = edges_without(es.drop_last(), kind, lifecycle, ps);
        let e = es.last();
        if e.kind == kind && e.lifecycle == lifecycle && e.participants == ps {
            rest
        } else {
            rest.push(e)
        }
    }
}

pub open spec fn no_matching_edge_text(kind: Seq<char>, lifecycle: Seq<char>, a: Seq<char>, b: Seq<char>) -> Seq<char> {
    "no matching edge to remove (kind="@ + kind + ", lifecycle="@ + lifecycle + ", "@ + a + " / "@ + b + ")"@
}

proof fn lemma_edges_without_len(es: Seq<EdgeView>, kind: Seq<char>, lifecycle: Seq<char>, ps: Seq<Seq<char>>)
    ensures
        edges_without(es, kind, lifecycle, ps).len() <= es.len(),
        edges_without(es, kind, lifecycle, ps).len() == es.len() ==> edges_without(es, kind, lifecycle, ps) == es,
    decreases es.len(),
{
    if es.len() > 0 {
        lemma_edges_without_len(es.drop_last(), kind, lifecycle, ps);
        assert(es =~= es.drop_last().push(es.last()));
    }
}

/// Remove every edge of `kind` at `lifecycle` between `a` and `b` (in
/// stored order for the kind); removing nothing is an error, so that a
/// scripted cleanup does not pass silently.
pub fn run_remove_edge(edges: &mut Vec<Edge>, kind: &EdgeKind, lifecycle: &str, a: &str, b: &str) -> (r: Result<
    (),
    String,
>)
    ensures
        ({
            let kept = edges_without(
                edges_view(old(edges)@),
                kind.name@,
                lifecycle@,
                participants(kind.directed, a@, b@),
            );
            if kept.len() == old(edges)@.len() {
                &&& r matches Err(m) && m@ == no_matching_edge_text(kind.name@, lifecycle@, a@, b@)
                &&& edges_view(final(edges)@) == edges_view(old(edges)@)
            } else {
                r is Ok && edges_view(final(edges)@) == kept
            }
        }),
{
    let want = canonicalise_participants_for_kind(kind, a, b);
    let ghost ov = edges_view(old(edges)@);
    let ghost ps = participants(kind.directed, a@, b@);
    let ghost mut k: int = 0;
    let mut i: usize = 0;
    let mut removed: bool = false;
    assert(ov.take(0) =~= Seq::<EdgeView>::empty());
    assert(ov.skip(0) =~= ov);
    while i < edges.len()
        invariant
            0 <= k <= ov.len(),
            ov == edges_view(old(edges)@),
            ps == participants(kind.directed, a@, b@),
            views_of(want@) == ps,
            i == edges_without(ov.take(k), kind.name@, lifecycle@, ps).len(),
            edges_view(edges@) == edges_without(ov.take(k), kind.name@, lifecycle@, ps) + ov.skip(k),
            removed == (edges_without(ov.take(k), kind.name@, lifecycle@, ps).len() < k),
        decreases edges.len() - i,
    {
        let ghost before = edges_view(edges@);
        let ghost done = edges_without(ov.take(k), kind.name@, lifecycle@, ps);
        proof {
            lemma_edges_without_len(ov.take(k), kind.name@, lifecycle@, ps);
            assert(k < ov.len());
            assert(before[i as int] == ov[k]);
            assert(edges@[i as int]@ == before[i as int]);
            assert(ov.take(k + 1).drop_last() =~= ov.take(k));
            assert(ov.take(k + 1).last() == ov[k]);
        }
        let e = &edges[i];
        let hit = str_eq(e.kind.name.as_str(), kind.name.as_str()) && str_eq(e.lifecycle.as_str(), lifecycle)
            && crate::ontology::same_participants(&e.participants, &want);
        if hit {
            let ghost pre = edges@;
            edges.remove(i);
            removed = true;
            proof {
                assert(edges_without(ov.take(k + 1), kind.name@, lifecycle@, ps) == done);
                assert(edges@ == pre.remove(i as int));
                assert(before.len() == pre.len());
                assert(before.len() == done.len() + ov.len() - k);
                assert(edges@.len() == pre.len() - 1);
                assert(edges_view(edges@).len() == (done + ov.skip(k + 1)).len());
                assert forall|j: int| 0 <= j < edges_view(edges@).len() implies #[trigger] edges_view(edges@)[j] == (
                done + ov.skip(k + 1))[j] by {
                    if j < i {
                        assert(edges@[j] == pre[j]);
                        assert(before[j] == pre[j]@);
                        assert(before[j] == done[j]);
                    } else {
                        assert(edges@[j] == pre[j + 1]);
                        assert(before[j + 1] == pre[j + 1]@);
                        assert(before[j + 1] == ov.skip(k)[j + 1 - i]);
                        assert(ov.skip(k)[j + 1 - i] == ov[k + j + 1 - i]);
                        assert(ov.skip(k + 1)[j - i] == ov[k + 1 + j - i]);
                    }
                }
                assert(edges_view(edges@) =~= done + ov.skip(k + 1));
                k = k + 1;
            }
        } else {
            proof {
                assert(edges_without(ov.take(k + 1), kind.name@, lifecycle@, ps) == done.push(ov[k]));
                assert(edges_view(edges@) =~= done.push(ov[k]) + ov.skip(k + 1));
                k = k + 1;
            }
            i += 1;
        }
    }
    proof {
        assert(ov.take(k) =~= ov);
        lemma_edges_without_len(ov, kind.name@, lifecycle@, ps);
    }
    if !removed {
        proof {
            assert(edges_view(edges@) =~= edges_without(ov, kind.name@, lifecycle@, ps));
        }
        let mut v: Vec<char> = Vec::new();
        extend_str(&mut v, "no matching edge to remove (kind=");
        extend_str(&mut v, kind.name.as_str());
        extend_str(&mut v, ", lifecycle=");
        extend_str(&mut v, lifecycle);
        extend_str(&mut v, ", ");
        extend_str(&mut v, a);
        extend_str(&mut v, " / ");
        extend_str(&mut v, b);
        extend_str(&mut v, ")");
        return Err(string_of(&v));
    }
    assert(edges_view(edges@) =~= edges_without(ov, kind.name@, lifecycle@, ps));
    Ok(())
}

/// `ps` with every `old_name` replaced by `new_name`.
pub open spec fn renamed(ps: Seq<Seq<char>>, old_name: Seq<char>, new_name: Seq<char>) -> Seq<Seq<char>> {
    ps.map_values(|p: Seq<char>| if p == old_name { new_name } else { p })
}

/// An edge after a component is renamed: participants renamed, then put
/// back in stored form.
pub open spec fn renamed_edge(e: EdgeView, old_name: Seq<char>, new_name: Seq<char>) -> EdgeView {
    EdgeView {
        kind: e.kind,
        directed: e.directed,
        lifecycle: e.lifecycle,
        participants: canonical(e.directed, renamed(e.participants, old_name, new_name)),
        evidence_grade: e.evidence_grade,
        evidence_fields: e.evidence_fields,
        rationale: e.rationale,
    }
}

/// Some edge of `es` has `name` among its participants.
pub open spec fn mentions(es: Seq<EdgeView>, name: Seq<char>) -> bool {
    exists|i: int| 0 <= i < es.len() && (#[trigger] es[i]).participants.contains(name)
}

fn rename_participants(ps: &Vec<String>, old_name: &str, new_name: &str) -> (r: (Vec<String>, bool))
    ensures
        views_of(r.0@) == renamed(views_of(ps@), old_name@, new_name@),
        r.1 == views_of(ps@).contains(old_name@),
{
    let ghost vs = views_of(ps@);
    let mut out: Vec<String> = Vec::new();
    let mut hit = false;
    let mut i: usize = 0;
    while i < ps.len()
        invariant
            i <= ps.len(),
            vs == views_of(ps@),
            views_of(out@) == renamed(vs, old_name@, new_name@).take(i as int),
            hit == vs.take(i as int).contains(old_name@),
        decreases ps.len() - i,
    {
        let p = &ps[i];
        let ghost prev = views_of(out@);
        let ghost rv = renamed(vs, old_name@, new_name@);
        proof {
            assert(vs[i as int] == p@);
            assert(vs.take(i + 1) =~= vs.take(i as int).push(p@));
            assert(rv.take(i + 1) =~= rv.take(i as int).push(rv[i as int]));
        }
        if str_eq(p.as_str(), old_name) {
            out.push(owned(new_name));
            hit = true;
            proof {
                assert(vs.take(i + 1)[i as int] == old_name@);
            }
        } else {
            out.push(clone_string(p));
            proof {
                if vs.take(i + 1).contains(old_name@) {
                    let w = choose|w: int| 0 <= w < i + 1 && #[trigger] vs.take(i + 1)[w] == old_name@;
                    assert(vs.take(i as int)[w] == old_name@);
                }
            }
        }
        assert(views_of(out@) =~= prev.push(out@[i as int]@));
        assert(views_of(out@) =~= renamed(vs, old_name@, new_name@).take(i + 1));
        i += 1;
    }
    assert(vs.take(ps.len() as int) =~= vs);
    assert(renamed(vs, old_name@, new_name@).take(ps.len() as int) =~= renamed(vs, old_name@, new_name@));
    (out, hit)
}

/// Rename a component in every edge that names it (a catalog rename
/// cascades here); true when some edge named it.
pub fn rename_component_in_edges(edges: &mut Vec<Edge>, old_name: &str, new_name: &str) -> (r: bool)
    ensures
        edges_view(final(edges)@) == edges_view(old(edges)@).map_values(
            |e: EdgeView| renamed_edge(e, old_name@, new_name@),
        ),
        r == mentions(edges_view(old(edges)@), old_name@),
{
    let ghost ov = edges_view(old(edges)@);
    let ghost target = ov.map_values(|e: EdgeView| renamed_edge(e, old_name@, new_name@));
    let mut out: Vec<Edge> = Vec::new();
    let mut changed = false;
    let ghost mut k: int = 0;
    assert(ov.skip(0) =~= ov);
    while edges.len() > 0
        invariant
            0 <= k <= ov.len(),
            ov == edges_view(old(edges)@),
            target == ov.map_values(|e: EdgeView| renamed_edge(e, old_name@, new_name@)),
            edges_view(edges@) == ov.skip(k),
            edges_view(out@) == target.take(k),
            changed == mentions(ov.take(k), old_name@),
        decreases edges.len(),
    {
        proof {
            assert(ov.skip(k).len() == edges@.len());
            assert(edges_view(edges@)[0] == edges@[0]@);
            assert(ov.skip(k)[0] == ov[k]);
        }
        let ghost pre = edges@;
        let e = edges.remove(0);
        proof {
            assert(edges@ == pre.remove(0));
            assert forall|j: int| 0 <= j < edges@.len() implies #[trigger] edges_view(edges@)[j] == ov.skip(k + 1)[j] by {
                assert(edges@[j] == pre[j + 1]);
                assert(edges_view(pre)[j + 1] == pre[j + 1]@);
                assert(ov.skip(k)[j + 1] == ov[k + 1 + j]);
            }
        }
        let (ps, hit) = rename_participants(&e.participants, old_name, new_name);
        let ps = canonicalise_for_kind(&e.kind, ps);
        let renamed_e = Edge {
            kind: e.kind,
            lifecycle: e.lifecycle,
            participants: ps,
            evidence_grade: e.evidence_grade,
            evidence_fields: e.evidence_fields,
            rationale: e.rationale,
        };
        let ghost prev_out = edges_view(out@);
        out.push(renamed_e);
        proof {
            assert(edges_view(out@) =~= prev_out.push(renamed_e@));
            assert(target.take(k + 1) =~= target.take(k).push(target[k]));
            assert(renamed_e@ == target[k]);
            assert(edges_view(out@) =~= target.take(k + 1));
            assert(edges_view(edges@) =~= ov.skip(k + 1));
            assert(ov.take(k + 1)[k] == ov[k]);
            if hit {
                assert(ov.take(k + 1)[k].participants.contains(old_name@));
            }
            if changed {
                let w = choose|w: int| 0 <= w < k && (#[trigger] ov.take(k)[w]).participants.contains(old_name@);
                assert(ov.take(k + 1)[w] == ov.take(k)[w]);
            }
            if mentions(ov.take(k + 1), old_name@) && !hit {
                let w = choose|w: int| 0 <= w < k + 1 && (#[trigger] ov.take(k + 1)[w]).participants.contains(old_name@);
                assert(w != k);
                assert(ov.take(k)[w] == ov.take(k + 1)[w]);
            }
            k = k + 1;
        }
        changed = changed || hit;
    }
    proof {
        assert(ov.take(k) =~= ov);
        assert(target.take(k) =~= target);
    }
    *edges = out;
    changed
}

/// `name` is one of the edge's participants.
pub fn involves(e: &Edge, name: &str) -> (r: bool)
    ensures
        r == e@.participants.contains(name@),
{
    let mut i: usize = 0;
    while i < e.participants.len()
        invariant
            i <= e.participants.len(),
            forall|j: int| 0 <= j < i ==> e@.participants[j] != name@,
        decreases e.participants.len() - i,
    {
        if str_eq(e.participants[i].as_str(), name) {
            proof {
                assert(e@.participants[i as int] == name@);
            }
            return true;
        }
        i += 1;
    }
    false
}

/// What `list` keeps: edges naming the plan's component, of a kind, at a
/// lifecycle, each only where given.
pub struct ListFilter {
    pub plan: Option<String>,
    pub kind: Option<String>,
    pub lifecycle: Option<String>,
}

pub open spec fn kept_by(e: EdgeView, component: Option<Seq<char>>, kind: Option<Seq<char>>, lifecycle: Option<Seq<char>>) -> bool {
    &&& (component matches Some(c) ==> e.participants.contains(c))
    &&& (kind matches Some(k) ==> e.kind == k)
    &&& (lifecycle matches Some(l) ==> e.lifecycle == l)
}

/// The positions of the edges of `es` that the filter keeps, ascending.
pub open spec fn kept_positions(
    es: Seq<EdgeView>,
    component: Option<Seq<char>>,
    kind: Option<Seq<char>>,
    lifecycle: Option<Seq<char>>,
) -> Seq<int>
    decreases es.len(),
{
    if es.len() == 0 {
        seq![]
    } else {
        let rest = kept_positions(es.drop_last(), component, kind, lifecycle);
        if kept_by(es.last(), component, kind, lifecycle) {
            rest.push(es.len() - 1)
        } else {
            rest
        }
    }
}

pub open spec fn opt_view(o: Option<String>) -> Option<Seq<char>> {
    match o {
        Some(s) => Some(s@),
        None => None,
    }
}

fn opt_matches(want: &Option<String>, have: &String) -> (r: bool)
    ensures
        r == (opt_view(*want) matches Some(w) ==> have@ == w),
{
    match want {
        Some(w) => str_eq(w.as_str(), have.as_str()),
        None => true,
    }
}

/// The positions of the edges that `list` shows, ascending; a plan filter
/// names the component of the plan at that absolute path.
pub fn run_list(catalog: &ProjectsCatalog, edges: &Vec<Edge>, filter: &ListFilter) -> (r: Result<Vec<usize>, String>)
    ensures
        match filter.plan {
            Some(plan) => match plan_project(plan@) {
                Err(e) => r matches Err(x) && x@ == e,
                Ok(p) => match first_index(paths_of(entries(catalog.projects@)), path_key(p)) {
                    None => r matches Err(x) && x@ == "plan's project "@ + p
                        + " is not in the catalog; run `ravel-lite run` once or add it with `ravel-lite state projects add`"@,
                    Some(i) => r matches Ok(v) && v@.map_values(|k: usize| k as int) == kept_positions(
                        edges_view(edges@),
                        Some(catalog.projects@[i].name@),
                        opt_view(filter.kind),
                        opt_view(filter.lifecycle),
                    ),
                },
            },
            None => r matches Ok(v) && v@.map_values(|k: usize| k as int) == kept_positions(
                edges_view(edges@),
                None,
                opt_view(filter.kind),
                opt_view(filter.lifecycle),
            ),
        },
{
    let component: Option<String> = match &filter.plan {
        None => None,
        Some(plan) => match resolve_plan_component_name(catalog, plan.as_str()) {
            Err(e) => return Err(e),
            Ok(n) => Some(n),
        },
    };
    let ghost ev = edges_view(edges@);
    let ghost comp = opt_view(component);
    let ghost kv = opt_view(filter.kind);
    let ghost lv = opt_view(filter.lifecycle);
    let mut out: Vec<usize> = Vec::new();
    let mut i: usize = 0;
    assert(ev.take(0) =~= Seq::<EdgeView>::empty());
    assert(out@.map_values(|k: usize| k as int) =~= Seq::<int>::empty());
    while i < edges.len()
        invariant
            i <= edges.len(),
            ev == edges_view(edges@),
            comp == opt_view(component),
            kv == opt_view(filter.kind),
            lv == opt_view(filter.lifecycle),
            out@.map_values(|k: usize| k as int) == kept_positions(ev.take(i as int), comp, kv, lv),
        decreases edges.len() - i,
    {
        let e = &edges[i];
        let keep = match &component {
            Some(c) => involves(e, c.as_str()),
            None => true,
        } && opt_matches(&filter.kind, &e.kind.name) && opt_matches(&filter.lifecycle, &e.lifecycle);
        proof {
            assert(ev.take(i + 1).drop_last() =~= ev.take(i as int));
            assert(ev.take(i + 1).last() == e@);
        }
        if keep {
            out.push(i);
        }
        assert(out@.map_values(|k: usize| k as int) =~= kept_positions(ev.take(i + 1), comp, kv, lv));
        i += 1;
    }
    assert(ev.take(edges.len() as int) =~= ev);
    Ok(out)
}

/// An `add-edge` request, participants as the user typed them.
pub struct AddEdgeRequest {
    pub kind: EdgeKind,
    pub lifecycle: String,
    pub a: String,
    pub b: String,
    pub evidence_grade: String,
    pub evidence_fields: Vec<String>,
    pub rationale: String,
}

/// The edge an `add-edge` request stores.
pub open spec fn requested_edge(req: AddEdgeRequest) -> EdgeView {
    EdgeView {
        kind: req.kind.name@,
        directed: req.kind.directed,
        lifecycle: req.lifecycle@,
        participants: participants(req.kind.directed, req.a@, req.b@),
        evidence_grade: req.evidence_grade@,
        evidence_fields: views_of(req.evidence_fields@),
        rationale: req.rationale@,
    }
}

/// Add the edge a request asks for, both participants being catalogued
/// components: `Ok(false)` when it was already stored.
pub fn run_add_edge(catalog: &ProjectsCatalog, edges: &mut Vec<Edge>, req: AddEdgeRequest) -> (r: Result<bool, String>)
    ensures
        ({
            let names = names_of(entries(catalog.projects@));
            let e = requested_edge(req);
            if first_index(names, req.a@) is None {
                r matches Err(x) && x@ == unknown_component_text(req.a@) && edges_view(final(edges)@) == edges_view(
                    old(edges)@,
                )
            } else if first_index(names, req.b@) is None {
                r matches Err(x) && x@ == unknown_component_text(req.b@) && edges_view(final(edges)@) == edges_view(
                    old(edges)@,
                )
            } else {
                match edge_problem(e) {
                    Some(m) => r matches Err(x) && x@ == m && edges_view(final(edges)@) == edges_view(old(edges)@),
                    None => if has_key(edges_view(old(edges)@), e) {
                        r == Ok::<bool, String>(false) && edges_view(final(edges)@) == edges_view(old(edges)@)
                    } else {
                        r == Ok::<bool, String>(true) && edges_view(final(edges)@) == edges_view(old(edges)@).push(e)
                    },
                }
            }
        }),
{
    match require_component_known(catalog, req.a.as_str()) {
        Err(e) => return Err(e),
        Ok(()) => {},
    }
    match require_component_known(catalog, req.b.as_str()) {
        Err(e) => return Err(e),
        Ok(()) => {},
    }
    let ps = canonicalise_participants_for_kind(&req.kind, req.a.as_str(), req.b.as_str());
    let edge = Edge {
        kind: req.kind,
        lifecycle: req.lifecycle,
        participants: ps,
        evidence_grade: req.evidence_grade,
        evidence_fields: req.evidence_fields,
        rationale: req.rationale,
    };
    proof {
        assert(views_of(edge.participants@) == strs(edge.participants@));
    }
    add_edge(edges, edge)
}

/// After a removal no edge of the kind at the lifecycle between the
/// pair is left, and every other edge is kept.
pub proof fn removal_leaves_no_match(es: Seq<EdgeView>, kind: Seq<char>, lifecycle: Seq<char>, ps: Seq<Seq<char>>)
    ensures
        forall|i: int|
            0 <= i < edges_without(es, kind, lifecycle, ps).len() ==> !({
                let e = #[trigger] edges_without(es, kind, lifecycle, ps)[i];
                e.kind == kind && e.lifecycle == lifecycle && e.participants == ps
            }),
        forall|j: int|
            0 <= j < es.len() && !(es[j].kind == kind && es[j].lifecycle == lifecycle && es[j].participants == ps)
                ==> edges_without(es, kind, lifecycle, ps).contains(#[trigger] es[j]),
    decreases es.len(),
{
    if es.len() > 0 {
        let init = es.drop_last();
        removal_leaves_no_match(init, kind, lifecycle, ps);
        let rest = edges_without(init, kind, lifecycle, ps);
        let now = edges_without(es, kind, lifecycle, ps);
        assert forall|j: int|
            0 <= j < es.len() && !(es[j].kind == kind && es[j].lifecycle == lifecycle && es[j].participants == ps)
                implies now.contains(#[trigger] es[j]) by {
            if j < init.len() {
                assert(init[j] == es[j]);
                assert(rest.contains(init[j]));
                let w = choose|w: int| 0 <= w < rest.len() && rest[w] == init[j];
                if now != rest {
                    assert(now[w] == rest[w]);
                }
            } else {
                assert(now[now.len() - 1] == es.last());
            }
        }
    }
}


/// For a symmetric kind the order in which the two participants are
/// named does not matter: `run_remove_edge` with `a` and `b` swapped
/// removes the same edges (and fails on the same stored edges), only its
/// message naming them in the order given.
pub proof fn symmetric_removal_ignores_order(es: Seq<EdgeView>, kind: Seq<char>, lifecycle: Seq<char>, a: Seq<char>, b: Seq<char>)
    ensures
        participants(false, a, b) == participants(false, b, a),
        edges_without(es, kind, lifecycle, participants(false, a, b)) == edges_without(
            es,
            kind,
            lifecycle,
            participants(false, b, a),
        ),
{
    lemma_lex_total(a, b);
    if a == b {
        lemma_lex_irreflexive(a);
    }
}

} // verus!
