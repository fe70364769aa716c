use ravel_lite::discover::{check_proposals, ProposalsFile};
use ravel_lite::ontology::{check_ontology, kind_named, KindEntry, OntologyYaml};
use ravel_lite::discover::{apply_proposals, ProposalRecord};
use ravel_lite::ontology::{add_edge, canonicalise_for_kind, validate, Edge, EdgeKind};
use ravel_lite::projects::{try_add_named, ProjectsCatalog};
use ravel_lite::related_components::{
    involves, rename_component_in_edges, run_add_edge, run_list, run_remove_edge, AddEdgeRequest, ListFilter,
};

fn generates() -> EdgeKind {
    EdgeKind { name: "generates".to_string(), directed: true }
}

fn orchestrates() -> EdgeKind {
    EdgeKind { name: "orchestrates".to_string(), directed: true }
}

fn depends_on() -> EdgeKind {
    EdgeKind { name: "depends-on".to_string(), directed: true }
}

fn co_implements() -> EdgeKind {
    EdgeKind { name: "co-implements".to_string(), directed: false }
}

fn catalog_with(names: &[&str]) -> ProjectsCatalog {
    let mut catalog = ProjectsCatalog::default();
    for name in names {
        try_add_named(&mut catalog, name, &format!("/work/{name}")).unwrap();
    }
    catalog
}

fn req_weak(kind: EdgeKind, lifecycle: &str, a: &str, b: &str) -> AddEdgeRequest {
    AddEdgeRequest {
        kind,
        lifecycle: lifecycle.to_string(),
        a: a.to_string(),
        b: b.to_string(),
        evidence_grade: "weak".to_string(),
        evidence_fields: Vec::new(),
        rationale: "test".to_string(),
    }
}

fn weak_edge(kind: EdgeKind, lifecycle: &str, a: &str, b: &str) -> Edge {
    let participants = canonicalise_for_kind(&kind, vec![a.to_string(), b.to_string()]);
    Edge {
        kind,
        lifecycle: lifecycle.to_string(),
        participants,
        evidence_grade: "weak".to_string(),
        evidence_fields: Vec::new(),
        rationale: "test".to_string(),
    }
}

fn proposal(kind: EdgeKind, lifecycle: &str, a: &str, b: &str) -> ProposalRecord {
    ProposalRecord {
        kind,
        lifecycle: lifecycle.to_string(),
        participants: vec![a.to_string(), b.to_string()],
        evidence_grade: "strong".to_string(),
        evidence_fields: vec![format!("{a}.produces_files"), format!("{b}.consumes_files")],
        rationale: "test".to_string(),
    }
}

fn strong_edge(kind: EdgeKind, lifecycle: &str, a: &str, b: &str) -> Edge {
    let participants = canonicalise_for_kind(&kind, vec![a.to_string(), b.to_string()]);
    Edge {
        kind,
        lifecycle: lifecycle.to_string(),
        participants,
        evidence_grade: "strong".to_string(),
        evidence_fields: vec![format!("{a}.produces_files")],
        rationale: "seed".to_string(),
    }
}

#[test]
fn rename_cascade_rewrites_participants() {
    let mut edges = Vec::new();
    add_edge(&mut edges, weak_edge(generates(), "codegen", "OldName", "Peer")).unwrap();
    assert!(rename_component_in_edges(&mut edges, "OldName", "NewName"));
    assert_eq!(edges[0].participants, vec!["NewName", "Peer"]);
}

#[test]
fn rename_resorts_symmetric_participants_and_reports_no_change() {
    let mut edges = Vec::new();
    add_edge(&mut edges, weak_edge(co_implements(), "design", "Alpha", "Beta")).unwrap();
    assert!(!rename_component_in_edges(&mut edges, "Gamma", "Delta"));
    assert!(rename_component_in_edges(&mut edges, "Alpha", "Zeta"));
    assert_eq!(edges[0].participants, vec!["Beta", "Zeta"]);
}

#[test]
fn add_edge_rejects_unknown_component() {
    let catalog = catalog_with(&["Known"]);
    let mut edges = Vec::new();
    let err = run_add_edge(&catalog, &mut edges, req_weak(generates(), "codegen", "Known", "Stranger")).unwrap_err();
    assert!(err.contains("Stranger"));
    assert!(err.contains("state projects add"));
    assert!(edges.is_empty());
}

#[test]
fn add_edge_persists_caller_supplied_v2_fields() {
    let catalog = catalog_with(&["A", "B"]);
    let mut edges = Vec::new();
    let req = AddEdgeRequest {
        kind: generates(),
        lifecycle: "codegen".to_string(),
        a: "A".to_string(),
        b: "B".to_string(),
        evidence_grade: "strong".to_string(),
        evidence_fields: vec!["A.produces_files".into(), "B.consumes_files".into()],
        rationale: "A emits schemas B consumes".into(),
    };
    assert_eq!(run_add_edge(&catalog, &mut edges, req), Ok(true));
    assert_eq!(edges.len(), 1);
    let edge = &edges[0];
    assert_eq!(edge.kind.name, "generates");
    assert_eq!(edge.lifecycle, "codegen");
    assert_eq!(edge.evidence_grade, "strong");
    assert_eq!(edge.evidence_fields, vec!["A.produces_files".to_string(), "B.consumes_files".to_string()]);
    assert_eq!(edge.rationale, "A emits schemas B consumes");
}

#[test]
fn add_edge_rejects_strong_grade_without_evidence_fields() {
    let catalog = catalog_with(&["A", "B"]);
    let mut edges = Vec::new();
    let mut req = req_weak(generates(), "codegen", "A", "B");
    req.evidence_grade = "strong".to_string();
    let err = run_add_edge(&catalog, &mut edges, req).unwrap_err();
    assert!(err.contains("evidence_field"));
    assert!(edges.is_empty());
}

#[test]
fn add_edge_rejects_empty_rationale() {
    let catalog = catalog_with(&["A", "B"]);
    let mut edges = Vec::new();
    let mut req = req_weak(generates(), "codegen", "A", "B");
    req.rationale = "   ".to_string();
    let err = run_add_edge(&catalog, &mut edges, req).unwrap_err();
    assert!(err.contains("rationale"));
}

#[test]
fn add_edge_is_idempotent_on_directed_kind() {
    let catalog = catalog_with(&["A", "B"]);
    let mut edges = Vec::new();
    assert_eq!(run_add_edge(&catalog, &mut edges, req_weak(generates(), "codegen", "A", "B")), Ok(true));
    assert_eq!(run_add_edge(&catalog, &mut edges, req_weak(generates(), "codegen", "A", "B")), Ok(false));
    assert_eq!(edges.len(), 1);
}

#[test]
fn add_edge_accepts_same_pair_at_distinct_lifecycles() {
    let catalog = catalog_with(&["A", "B"]);
    let mut edges = Vec::new();
    run_add_edge(&catalog, &mut edges, req_weak(depends_on(), "build", "A", "B")).unwrap();
    run_add_edge(&catalog, &mut edges, req_weak(depends_on(), "runtime", "A", "B")).unwrap();
    assert_eq!(edges.len(), 2);
}

#[test]
fn add_edge_canonicalises_symmetric_participants() {
    let catalog = catalog_with(&["Alpha", "Beta"]);
    let mut edges = Vec::new();
    run_add_edge(&catalog, &mut edges, req_weak(co_implements(), "design", "Beta", "Alpha")).unwrap();
    run_add_edge(&catalog, &mut edges, req_weak(co_implements(), "design", "Alpha", "Beta")).unwrap();
    assert_eq!(edges.len(), 1);
    assert_eq!(edges[0].participants, vec!["Alpha".to_string(), "Beta".to_string()]);
}

#[test]
fn validate_refuses_self_edge_and_wrong_arity() {
    let e = weak_edge(generates(), "codegen", "A", "A");
    assert!(validate(&e).unwrap_err().contains("distinct"));
    let mut e = weak_edge(generates(), "codegen", "A", "B");
    e.participants.push("C".to_string());
    assert!(validate(&e).unwrap_err().contains("exactly two"));
    let mut e = weak_edge(co_implements(), "design", "A", "B");
    e.participants.reverse();
    assert!(validate(&e).unwrap_err().contains("ascending"));
}

#[test]
fn remove_edge_errors_when_absent() {
    let mut edges = Vec::new();
    let err = run_remove_edge(&mut edges, &generates(), "codegen", "A", "B").unwrap_err();
    assert!(err.contains("no matching edge"));
    assert_eq!(err, "no matching edge to remove (kind=generates, lifecycle=codegen, A / B)");
}

#[test]
fn remove_edge_matches_only_specified_lifecycle() {
    let catalog = catalog_with(&["A", "B"]);
    let mut edges = Vec::new();
    run_add_edge(&catalog, &mut edges, req_weak(depends_on(), "build", "A", "B")).unwrap();
    run_add_edge(&catalog, &mut edges, req_weak(depends_on(), "runtime", "A", "B")).unwrap();
    run_remove_edge(&mut edges, &depends_on(), "build", "A", "B").unwrap();
    assert_eq!(edges.len(), 1);
    assert_eq!(edges[0].lifecycle, "runtime");
}

#[test]
fn remove_edge_works_on_symmetric_kind_regardless_of_order() {
    let catalog = catalog_with(&["Alpha", "Beta"]);
    let mut edges = Vec::new();
    run_add_edge(&catalog, &mut edges, req_weak(co_implements(), "design", "Alpha", "Beta")).unwrap();
    run_remove_edge(&mut edges, &co_implements(), "design", "Beta", "Alpha").unwrap();
    assert!(edges.is_empty());
}

#[test]
fn list_filters_by_component_kind_and_lifecycle() {
    let catalog = catalog_with(&["A", "B", "C"]);
    let mut edges = Vec::new();
    run_add_edge(&catalog, &mut edges, req_weak(generates(), "codegen", "A", "B")).unwrap();
    run_add_edge(&catalog, &mut edges, req_weak(depends_on(), "build", "B", "C")).unwrap();
    run_add_edge(&catalog, &mut edges, req_weak(depends_on(), "runtime", "A", "C")).unwrap();
    let all = ListFilter { plan: None, kind: None, lifecycle: None };
    assert_eq!(run_list(&catalog, &edges, &all), Ok(vec![0, 1, 2]));
    let deps = ListFilter { plan: None, kind: Some("depends-on".to_string()), lifecycle: None };
    assert_eq!(run_list(&catalog, &edges, &deps), Ok(vec![1, 2]));
    let plan_of_a = ListFilter { plan: Some("/work/A/LLM_STATE/core".to_string()), kind: None, lifecycle: Some("runtime".to_string()) };
    assert_eq!(run_list(&catalog, &edges, &plan_of_a), Ok(vec![2]));
    assert!(involves(&edges[2], "C"));
    assert!(!involves(&edges[2], "B"));
    let stranger = ListFilter { plan: Some("/elsewhere/X/LLM_STATE/core".to_string()), kind: None, lifecycle: None };
    assert!(run_list(&catalog, &edges, &stranger).is_err());
}

#[test]
fn apply_adds_new_edges() {
    let mut edges = Vec::new();
    let (report, skipped) = apply_proposals(&mut edges, vec![proposal(generates(), "codegen", "A", "B")]);
    assert_eq!(report.added, 1);
    assert_eq!(report.already_present, 0);
    assert!(report.kind_conflicts.is_empty());
    assert!(skipped.is_empty());
    assert_eq!(edges.len(), 1);
}

#[test]
fn apply_is_idempotent_on_rerun() {
    let mut edges = Vec::new();
    let first = apply_proposals(&mut edges, vec![proposal(generates(), "codegen", "A", "B")]).0;
    assert_eq!(first.added, 1);
    let second = apply_proposals(&mut edges, vec![proposal(generates(), "codegen", "A", "B")]).0;
    assert_eq!(second.added, 0);
    assert_eq!(second.already_present, 1);
}

#[test]
fn apply_rejects_reversed_directed_edge_at_same_lifecycle() {
    let mut edges = Vec::new();
    add_edge(&mut edges, strong_edge(generates(), "codegen", "A", "B")).unwrap();
    let (report, _) = apply_proposals(&mut edges, vec![proposal(generates(), "codegen", "B", "A")]);
    assert_eq!(report.added, 0, "reversed directed edge must not be added");
    assert_eq!(report.kind_conflicts.len(), 1);
    assert_eq!(report.kind_conflicts[0].existing.participants, vec!["A", "B"]);
    assert_eq!(edges.len(), 1);
    assert_eq!(edges[0].participants, vec!["A", "B"]);
}

#[test]
fn apply_treats_duplicate_directed_as_already_present() {
    let mut edges = Vec::new();
    add_edge(&mut edges, strong_edge(generates(), "codegen", "A", "B")).unwrap();
    let (report, _) = apply_proposals(&mut edges, vec![proposal(generates(), "codegen", "A", "B")]);
    assert_eq!(report.added, 0);
    assert_eq!(report.already_present, 1);
    assert!(report.kind_conflicts.is_empty());
}

#[test]
fn apply_accepts_multiple_kinds_on_same_pair() {
    let mut edges = Vec::new();
    let (report, _) = apply_proposals(
        &mut edges,
        vec![proposal(generates(), "codegen", "A", "B"), proposal(orchestrates(), "dev-workflow", "A", "B")],
    );
    assert_eq!(report.added, 2);
    assert_eq!(edges.len(), 2);
}

#[test]
fn apply_skips_invalid_proposals_with_their_problem() {
    let mut edges = Vec::new();
    let mut bad = proposal(generates(), "codegen", "A", "B");
    bad.rationale = String::new();
    let (report, skipped) = apply_proposals(&mut edges, vec![bad, proposal(co_implements(), "design", "Z", "A")]);
    assert_eq!(report.added, 1);
    assert_eq!(skipped.len(), 1);
    assert!(skipped[0].contains("rationale"));
    assert_eq!(edges[0].participants, vec!["A", "Z"]);
}

#[test]
fn assert_no_dangling_tokens_reports_leftovers() {
    let err = ravel_lite::discover::assert_no_dangling_tokens("hello {{MISSING}} world").unwrap_err();
    assert!(err.contains("{{MISSING}}"), "message was: {err}");
}

#[test]
fn stage2_prompt_substitutes_all_three_tokens() {
    let prompt = ravel_lite::discover::compose_stage2_prompt(
        "kinds:\n{{ONTOLOGY_KINDS}}\nroot={{CONFIG_ROOT}}\n{{SURFACE_RECORDS_YAML}}",
        "- generates",
        "/tmp/cfg",
        "surfaces: []\n",
    )
    .unwrap();
    assert_eq!(prompt, "kinds:\n- generates\nroot=/tmp/cfg\nsurfaces: []\n");
}

#[test]
fn stage2_prompt_lists_leftovers_sorted_once() {
    let err = ravel_lite::discover::compose_stage2_prompt("{{B}} {{A}} {{B}} {{CONFIG_ROOT}}", "", "/c", "").unwrap_err();
    assert_eq!(err, "Stage 2 prompt has unresolved token(s) after substitution: {{A}}, {{B}}");
}

#[test]
fn proposals_file_of_another_version_is_refused() {
    let file = ProposalsFile {
        schema_version: 7,
        generated_at: "t".to_string(),
        source_project_states: vec![],
        proposals: vec![],
        failures: vec![],
    };
    let err = check_proposals(file, "/cfg/discover-proposals.yaml").err().unwrap();
    assert_eq!(err, "/cfg/discover-proposals.yaml has schema_version 7 but this ravel-lite expects 1");
}

#[test]
fn ontology_kinds_resolve_by_name() {
    let ontology = OntologyYaml {
        schema_version: 1,
        kinds: vec![KindEntry {
            name: "co-implements".to_string(),
            family: "design".to_string(),
            directed: false,
            lifecycles: vec!["design".to_string()],
            spdx: None,
            description: "body\n".to_string(),
        }],
        lifecycles: vec![],
        evidence_grades: vec![],
    };
    let ontology = check_ontology(ontology).ok().unwrap();
    let kind = kind_named(&ontology, "co-implements").unwrap();
    assert!(!kind.directed);
    assert!(kind_named(&ontology, "generates").is_none());
    let wrong = OntologyYaml { schema_version: 2, kinds: vec![], lifecycles: vec![], evidence_grades: vec![] };
    assert_eq!(check_ontology(wrong).err().unwrap(), "ontology YAML schema_version is 2, expected 1");
}
