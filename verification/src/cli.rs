//! Decisions the command line makes before it does any work: where a
//! `--body` comes from, and which projects a run over several plans must
//! find in the catalog first.

use vstd::prelude::*;

use crate::git::{project_root_for_plan, shallow_plan_text, subtree_root};
use crate::order::{sorted_distinct, sorted_set, views_of};
use crate::text::{owned, str_eq};

verus! {

/// Where a body given on the command line is read from.
pub enum BodySource {
    /// The file at this path.
    File(String),
    /// Standard input (`--body -`).
    Stdin,
    /// This text, as given.
    Text(String),
    /// Nothing was given: the empty body.
    Empty,
}

pub open spec fn both_bodies_text() -> Seq<char> {
    "pass only one of --body-file or --body"@
}

/// Decide where the body comes from; giving both a file and a body is an
/// error.
pub fn resolve_body(body_file: Option<String>, body: Option<String>) -> (r: Result<BodySource, String>)
    ensures
        match (body_file, body) {
            (Some(p), None) => r matches Ok(BodySource::File(q)) && q@ == p@,
            (None, Some(v)) => if v@ == "-"@ {
                r matches Ok(BodySource::Stdin)
            } else {
                r matches Ok(BodySource::Text(t)) && t@ == v@
            },
            (None, None) => r matches Ok(BodySource::Empty),
            (Some(_), Some(_)) => r matches Err(e) && e@ == both_bodies_text(),
        },
{
    match (body_file, body) {
        (Some(p), None) => Ok(BodySource::File(p)),
        (None, Some(v)) => {
            if str_eq(v.as_str(), "-") {
                Ok(BodySource::Stdin)
            } else {
                Ok(BodySource::Text(v))
            }
        },
        (None, None) => Ok(BodySource::Empty),
        (Some(_), Some(_)) => Err(owned("pass only one of --body-file or --body")),
    }
}

/// The path a plan's subtree root is derived from: its canonical form
/// when it has one.
pub open spec fn plan_path(p: (String, Option<String>)) -> Seq<char> {
    match p.1 {
        Some(c) => c@,
        None => p.0@,
    }
}

/// The first plan (in order) whose path is too shallow for a subtree root.
pub open spec fn first_shallow(plans: Seq<(String, Option<String>)>) -> Option<int> {
    if exists|i: int| 0 <= i < plans.len() && subtree_root(plan_path(#[trigger] plans[i])) is None {
        Some(
            choose|i: int|
                0 <= i < plans.len() && subtree_root(plan_path(#[trigger] plans[i])) is None && forall|j: int|
                    0 <= j < i ==> subtree_root(plan_path(#[trigger] plans[j])) is Some,
        )
    } else {
        None
    }
}

/// The subtree roots of plans that all have one, in order.
pub open spec fn plan_roots(plans: Seq<(String, Option<String>)>) -> Seq<Seq<char>> {
    plans.map_values(|p: (String, Option<String>)| subtree_root(plan_path(p))->0)
}

/// The projects of the plans of a run, each once and ascending: the
/// subtree root of each plan (given with its canonical path, where it has
/// one); a plan too shallow to have one is an error.
pub fn plan_projects(plans: &Vec<(String, Option<String>)>) -> (r: Result<Vec<String>, String>)
    ensures
        match first_shallow(plans@) {
            Some(i) => r matches Err(e) && e@ == shallow_plan_text(plans@[i].0@),
            None => r matches Ok(v) && views_of(v@) == sorted_set(plan_roots(plans@)),
        },
{
    let mut roots: Vec<String> = Vec::new();
    let mut i: usize = 0;
    while i < plans.len()
        invariant
            i <= plans.len(),
            forall|j: int| 0 <= j < i ==> subtree_root(plan_path(#[trigger] plans@[j])) is Some,
            views_of(roots@) == plan_roots(plans@.take(i as int)),
        decreases plans.len() - i,
    {
        let p = &plans[i];
        let canonical: Option<&str> = match &p.1 {
            Some(c) => Some(c.as_str()),
            None => None,
        };
        match project_root_for_plan(p.0.as_str(), canonical) {
            Err(e) => {
                proof {
                    assert(subtree_root(plan_path(plans@[i as int])) is None);
                    let w = i as int;
                    assert(0 <= w < plans@.len() && subtree_root(plan_path(plans@[w])) is None);
                    let c = first_shallow(plans@)->0;
                    assert(0 <= c < plans@.len() && subtree_root(plan_path(plans@[c])) is None && forall|j: int|
                        0 <= j < c ==> subtree_root(plan_path(#[trigger] plans@[j])) is Some);
                    if c < w {
                        assert(subtree_root(plan_path(plans@[c])) is Some);
                    } else if w < c {
                        assert(subtree_root(plan_path(plans@[w])) is Some);
                    }
                }
                return Err(e);
            },
            Ok(root) => {
                let ghost before = views_of(roots@);
                roots.push(root);
                proof {
                    assert(views_of(roots@) =~= before.push(subtree_root(plan_path(plans@[i as int]))->0));
                    assert(plan_roots(plans@.take(i + 1)) =~= plan_roots(plans@.take(i as int)).push(
                        subtree_root(plan_path(plans@[i as int]))->0,
                    ));
                }
            },
        }
        i += 1;
    }
    assert(plans@.take(plans.len() as int) =~= plans@);
    Ok(sorted_distinct(&roots))
}

} // verus!
