//! Typed edges between components, as `related-components.yaml` stores
//! them, and the rules an edge must meet before it is stored.
//!
//! A kind, a lifecycle scope and an evidence grade are carried by their
//! ontology names; a kind also carries whether it is directed, which is
//! all the edge logic reads of it. Participants of a symmetric kind are
//! stored in ascending order, so one pair has one stored form.

use vstd::prelude::*;

use crate::order::{clone_strings, lex_le, lex_le_rel, lex_less, sort_strings, views_of};
use crate::text::{chars_of, clone_string, decimal, extend_str, push_decimal, str_eq, string_of, trim, trim_chars};

verus! {

/// The evidence grade that needs no evidence fields.
pub const WEAK_GRADE: &'static str = "weak";

/// An edge kind of the ontology, by name.
pub struct EdgeKind {
    pub name: String,
    pub directed: bool,
}

/// One edge of the component graph.
pub struct Edge {
    pub kind: EdgeKind,
    pub lifecycle: String,
    pub participants: Vec<String>,
    pub evidence_grade: String,
    pub evidence_fields: Vec<String>,
    pub rationale: String,
}

/// An edge as plain values.
pub struct EdgeView {
    pub kind: Seq<char>,
    pub directed: bool,
    pub lifecycle: Seq<char>,
    pub participants: Seq<Seq<char>>,
    pub evidence_grade: Seq<char>,
    pub evidence_fields: Seq<Seq<char>>,
    pub rationale: Seq<char>,
}

impl View for Edge {
    type V = EdgeView;

    open spec fn view(&self) -> EdgeView {
        EdgeView {
            kind: self.kind.name@,
            directed: self.kind.directed,
            lifecycle: self.lifecycle@,
            participants: views_of(self.participants@),
            evidence_grade: self.evidence_grade@,
            evidence_fields: views_of(self.evidence_fields@),
            rationale: self.rationale@,
        }
    }
}

pub open spec fn edges_view(es: Seq<Edge>) -> Seq<EdgeView> {
    es.map_values(|e: Edge| e@)
}

/// Participants in stored form: as given for a directed kind, ascending
/// for a symmetric one.
pub open spec fn canonical(directed: bool, ps: Seq<Seq<char>>) -> Seq<Seq<char>> {
    if directed {
        ps
    } else {
        ps.sort_by(lex_le_rel())
    }
}

/// Put participants in stored form for `kind`.
pub fn canonicalise_for_kind(kind: &EdgeKind, participants: Vec<String>) -> (r: Vec<String>)
    ensures
        views_of(r@) == canonical(kind.directed, views_of(participants@)),
{
    if kind.directed {
        participants
    } else {
        sort_strings(&participants)
    }
}

/// Why an edge may not be stored, if it may not: it joins exactly two
/// distinct participants, in ascending order for a symmetric kind, gives
/// a rationale that is not blank, and names at least one evidence field
/// unless its evidence is graded weak.
pub open spec fn edge_problem(e: EdgeView) -> Option<Seq<char>> {
    if e.participants.len() != 2 {
        Some("an edge joins exactly two participants"@)
    } else if e.participants[0] == e.participants[1] {
        Some("edge participants must be distinct, got '"@ + e.participants[0] + "' twice"@)
    } else if !e.directed && !lex_le(e.participants[0], e.participants[1]) {
        Some("participants of the symmetric kind '"@ + e.kind + "' must be stored in ascending order"@)
    } else if trim(e.rationale).len() == 0 {
        Some("edge rationale must not be empty"@)
    } else if e.evidence_grade != WEAK_GRADE@ && e.evidence_fields.len() == 0 {
        Some("evidence grade '"@ + e.evidence_grade + "' needs at least one evidence_field"@)
    } else {
        None
    }
}

/// Check an edge against the storage rules.
pub fn validate(e: &Edge) -> (r: Result<(), String>)
    ensures
        match edge_problem(e@) {
            Some(m) => r matches Err(x) && x@ == m,
            None => r is Ok,
        },
{
    let ps = &e.participants;
    let mut v: Vec<char> = Vec::new();
    if ps.len() != 2 {
        extend_str(&mut v, "an edge joins exactly two participants");
        return Err(string_of(&v));
    }
    if str_eq(ps[0].as_str(), ps[1].as_str()) {
        extend_str(&mut v, "edge participants must be distinct, got '");
        extend_str(&mut v, ps[0].as_str());
        extend_str(&mut v, "' twice");
        return Err(string_of(&v));
    }
    if !e.kind.directed && lex_less(ps[1].as_str(), ps[0].as_str()) {
        extend_str(&mut v, "participants of the symmetric kind '");
        extend_str(&mut v, e.kind.name.as_str());
        extend_str(&mut v, "' must be stored in ascending order");
        return Err(string_of(&v));
    }
    let rc = chars_of(e.rationale.as_str());
    let rt = trim_chars(&rc);
    if rt.len() == 0 {
        extend_str(&mut v, "edge rationale must not be empty");
        return Err(string_of(&v));
    }
    if !str_eq(e.evidence_grade.as_str(), WEAK_GRADE) && e.evidence_fields.len() == 0 {
        extend_str(&mut v, "evidence grade '");
        extend_str(&mut v, e.evidence_grade.as_str());
        extend_str(&mut v, "' needs at least one evidence_field");
        return Err(string_of(&v));
    }
    Ok(())
}

/// Two edges are the same edge: same kind, lifecycle and participants.
pub open spec fn same_key(a: EdgeView, b: EdgeView) -> bool {
    a.kind == b.kind && a.lifecycle == b.lifecycle && a.participants == b.participants
}

pub open spec fn has_key(es: Seq<EdgeView>, e: EdgeView) -> bool {
    exists|i: int| 0 <= i < es.len() && same_key(#[trigger] es[i], e)
}

/// The two lists hold the same strings in the same order.
pub fn same_participants(a: &Vec<String>, b: &Vec<String>) -> (r: bool)
    ensures
        r == (views_of(a@) == views_of(b@)),
{
    if a.len() != b.len() {
        proof {
            assert(views_of(a@).len() != views_of(b@).len());
        }
        return false;
    }
    let mut i: usize = 0;
    while i < a.len()
        invariant
            i <= a.len(),
            a.len() == b.len(),
            forall|j: int| 0 <= j < i ==> a@[j]@ == b@[j]@,
        decreases a.len() - i,
    {
        if !str_eq(a[i].as_str(), b[i].as_str()) {
            proof {
                assert(views_of(a@)[i as int] != views_of(b@)[i as int]);
            }
            return false;
        }
        i += 1;
    }
    assert(views_of(a@) =~= views_of(b@));
    true
}

/// Executable `same_key`.
pub fn same_edge(a: &Edge, b: &Edge) -> (r: bool)
    ensures
        r == same_key(a@, b@),
{
    str_eq(a.kind.name.as_str(), b.kind.name.as_str()) && str_eq(a.lifecycle.as_str(), b.lifecycle.as_str())
        && same_participants(&a.participants, &b.participants)
}

/// The position of the first edge of `es` that is the same edge as `e`.
pub fn key_position(es: &Vec<Edge>, e: &Edge) -> (r: Option<usize>)
    ensures
        match r {
            Some(i) => i < es@.len() && same_key(es@[i as int]@, e@),
            None => !has_key(edges_view(es@), e@),
        },
{
    let mut i: usize = 0;
    while i < es.len()
        invariant
            i <= es.len(),
            forall|j: int| 0 <= j < i ==> !same_key(#[trigger] es@[j]@, e@),
        decreases es.len() - i,
    {
        if same_edge(&es[i], e) {
            return Some(i);
        }
        i += 1;
    }
    proof {
        assert forall|j: int| 0 <= j < edges_view(es@).len() implies !same_key(#[trigger] edges_view(es@)[j], e@) by {
            assert(edges_view(es@)[j] == es@[j]@);
        }
    }
    None
}

/// Store `edge` unless the same edge is already stored: `Ok(true)` when
/// it was appended, `Ok(false)` when it was already there, and the rule
/// it breaks when it breaks one (nothing changes then).
pub fn add_edge(edges: &mut Vec<Edge>, edge: Edge) -> (r: Result<bool, String>)
    ensures
        match edge_problem(edge@) {
            Some(m) => r matches Err(x) && x@ == m && edges_view(final(edges)@) == edges_view(old(edges)@),
            None => if has_key(edges_view(old(edges)@), edge@) {
                r == Ok::<bool, String>(false) && edges_view(final(edges)@) == edges_view(old(edges)@)
            } else {
                r == Ok::<bool, String>(true) && edges_view(final(edges)@) == edges_view(old(edges)@).push(edge@)
            },
        },
{
    match validate(&edge) {
        Err(m) => return Err(m),
        Ok(()) => {},
    }
    match key_position(edges, &edge) {
        Some(i) => {
            proof {
                assert(edges_view(edges@)[i as int] == edges@[i as int]@);
            }
            Ok(false)
        },
        None => {
            edges.push(edge);
            proof {
                assert(edges_view(edges@) =~= edges_view(old(edges)@).push(edge@));
            }
            Ok(true)
        },
    }
}

/// A copy of an edge.
pub fn clone_edge(e: &Edge) -> (r: Edge)
    ensures
        r@ == e@,
{
    Edge {
        kind: EdgeKind { name: clone_string(&e.kind.name), directed: e.kind.directed },
        lifecycle: clone_string(&e.lifecycle),
        participants: clone_strings(&e.participants),
        evidence_grade: clone_string(&e.evidence_grade),
        evidence_fields: clone_strings(&e.evidence_fields),
        rationale: clone_string(&e.rationale),
    }
}

/// An edge just appended is found again, so adding the same edge twice
/// stores it once.
pub proof fn added_edge_is_found_again(edges: Seq<EdgeView>, e: EdgeView)
    ensures
        has_key(edges.push(e), e),
{
    assert(same_key(edges.push(e)[edges.len() as int], e));
}

/// The version of the ontology definition file this library reads.
pub const ONTOLOGY_FILE_SCHEMA_VERSION: u32 = 1;

/// The ontology definition: kinds, lifecycle scopes and evidence grades.
pub struct OntologyYaml {
    pub schema_version: u32,
    pub kinds: Vec<KindEntry>,
    pub lifecycles: Vec<LifecycleEntry>,
    pub evidence_grades: Vec<EvidenceGradeEntry>,
}

pub struct KindEntry {
    pub name: String,
    pub family: String,
    pub directed: bool,
    pub lifecycles: Vec<String>,
    pub spdx: Option<String>,
    pub description: String,
}

pub struct LifecycleEntry {
    pub name: String,
    pub description: String,
}

pub struct EvidenceGradeEntry {
    pub name: String,
    pub criterion: String,
}

/// Accept a parsed ontology file of the version this library reads.
pub fn check_ontology(parsed: OntologyYaml) -> (r: Result<OntologyYaml, String>)
    ensures
        parsed.schema_version == ONTOLOGY_FILE_SCHEMA_VERSION ==> r == Ok::<OntologyYaml, String>(parsed),
        parsed.schema_version != ONTOLOGY_FILE_SCHEMA_VERSION ==> (r matches Err(e) && e@
            == "ontology YAML schema_version is "@ + decimal(parsed.schema_version as nat) + ", expected "@ + decimal(
            ONTOLOGY_FILE_SCHEMA_VERSION as nat,
        )),
{
    if parsed.schema_version != ONTOLOGY_FILE_SCHEMA_VERSION {
        let mut v: Vec<char> = Vec::new();
        extend_str(&mut v, "ontology YAML schema_version is ");
        push_decimal(&mut v, parsed.schema_version as u64);
        extend_str(&mut v, ", expected ");
        push_decimal(&mut v, ONTOLOGY_FILE_SCHEMA_VERSION as u64);
        return Err(string_of(&v));
    }
    Ok(parsed)
}

/// The edge kind the ontology defines under `name`, with its direction.
pub fn kind_named(ontology: &OntologyYaml, name: &str) -> (r: Option<EdgeKind>)
    ensures
        match r {
            Some(k) => k.name@ == name@ && exists|i: int|
                0 <= i < ontology.kinds@.len() && (#[trigger] ontology.kinds@[i]).name@ == name@
                    && ontology.kinds@[i].directed == k.directed && forall|j: int|
                    0 <= j < i ==> (#[trigger] ontology.kinds@[j]).name@ != name@,
            None => forall|i: int| 0 <= i < ontology.kinds@.len() ==> (#[trigger] ontology.kinds@[i]).name@ != name@,
        },
{
    let mut i: usize = 0;
    while i < ontology.kinds.len()
        invariant
            i <= ontology.kinds.len(),
            forall|j: int| 0 <= j < i ==> (#[trigger] ontology.kinds@[j]).name@ != name@,
        decreases ontology.kinds.len() - i,
    {
        let k = &ontology.kinds[i];
        if str_eq(k.name.as_str(), name) {
            return Some(EdgeKind { name: clone_string(&k.name), directed: k.directed });
        }
        i += 1;
    }
    None
}

} // verus!
