use ravel_lite::discover::{
    decide_stage2, discover_exit, effective_concurrency, projects_to_analyse, Stage2Decision, DEFAULT_CONCURRENCY,
    initial_proposals, not_analysed_failure, source_project_states, unaccounted_projects, Stage1Failure, SurfaceFile,
    SurfaceRecord, PROPOSALS_SCHEMA_VERSION,
};
use ravel_lite::projects::{try_add_named, ProjectsCatalog};

fn surface(project: &str, sha: &str) -> SurfaceFile {
    SurfaceFile {
        schema_version: 1,
        project: project.to_string(),
        tree_sha: sha.to_string(),
        dirty_hash: String::new(),
        analysed_at: "t".to_string(),
        surface: SurfaceRecord {
            purpose: String::new(),
            consumes_files: vec![],
            produces_files: vec![],
            network_endpoints: vec![],
            data_formats: vec![],
            external_tools_spawned: vec![],
            explicit_cross_project_mentions: vec![],
            notes: String::new(),
        },
    }
}

#[test]
fn source_states_are_sorted_and_last_analysis_wins() {
    let surfaces = vec![surface("zeta", "z1"), surface("alpha", "a1"), surface("zeta", "z2")];
    let states = source_project_states(&surfaces);
    let keys: Vec<&str> = states.iter().map(|(k, _)| k.as_str()).collect();
    assert_eq!(keys, vec!["alpha", "zeta"]);
    assert_eq!(states[1].1.tree_sha, "z2");
}

#[test]
fn initial_proposals_seed_failures_and_states() {
    let failures = vec![Stage1Failure { project: "b".to_string(), error: "boom".to_string() }];
    let file = initial_proposals(&vec![surface("a", "s")], failures, "2024-01-01T00:00:00Z".to_string());
    assert_eq!(file.schema_version, PROPOSALS_SCHEMA_VERSION);
    assert!(file.proposals.is_empty());
    assert_eq!(file.failures.len(), 1);
    assert_eq!(file.source_project_states.len(), 1);
}

#[test]
fn filtered_run_accounts_for_every_catalogued_project() {
    let mut catalog = ProjectsCatalog::default();
    for n in ["a", "b", "c", "d"] {
        try_add_named(&mut catalog, n, &format!("/w/{n}")).unwrap();
    }
    let failures = vec![Stage1Failure { project: "c".to_string(), error: "x".to_string() }];
    let left = unaccounted_projects(&catalog, &vec![surface("a", "s")], &failures);
    assert_eq!(left, vec!["b".to_string(), "d".to_string()]);
    let f = not_analysed_failure("b");
    assert_eq!(f.project, "b");
    assert_eq!(f.error, "not yet analysed; run discover without --project to populate");
}

#[test]
fn concurrency_defaults_and_is_at_least_one() {
    assert_eq!(effective_concurrency(None), DEFAULT_CONCURRENCY);
    assert_eq!(effective_concurrency(Some(0)), 1);
    assert_eq!(effective_concurrency(Some(7)), 7);
}

#[test]
fn projects_to_analyse_honours_the_filter() {
    let empty = ProjectsCatalog::default();
    assert_eq!(projects_to_analyse(&empty, None).unwrap_err(), "projects catalog is empty; nothing to discover");
    let mut catalog = ProjectsCatalog::default();
    try_add_named(&mut catalog, "alpha", "/p/alpha").unwrap();
    try_add_named(&mut catalog, "beta", "/p/beta").unwrap();
    let all = projects_to_analyse(&catalog, None).unwrap();
    assert_eq!(all.iter().map(|e| e.name.clone()).collect::<Vec<_>>(), vec!["alpha", "beta"]);
    let one = projects_to_analyse(&catalog, Some("beta")).unwrap();
    assert_eq!(one.len(), 1);
    assert_eq!(one[0].path, "/p/beta");
    assert_eq!(projects_to_analyse(&catalog, Some("gamma")).unwrap_err(), "project 'gamma' not in catalog");
}

#[test]
fn stage2_reuses_only_a_fully_cached_clean_run() {
    assert_eq!(decide_stage2(false, 0, true, 2), Stage2Decision::ReuseExisting);
    assert_eq!(decide_stage2(true, 0, true, 2), Stage2Decision::Run);
    assert_eq!(decide_stage2(false, 1, true, 2), Stage2Decision::Run);
    assert_eq!(decide_stage2(false, 0, false, 2), Stage2Decision::Run);
    assert_eq!(decide_stage2(true, 3, false, 0), Stage2Decision::NoSurfaces);
}

#[test]
fn failures_fail_the_run_unless_proposals_were_reused() {
    assert!(discover_exit(Stage2Decision::Run, 0).is_ok());
    assert!(discover_exit(Stage2Decision::ReuseExisting, 2).is_ok());
    let err = discover_exit(Stage2Decision::NoSurfaces, 1).unwrap_err();
    assert!(err.contains("Stage 1 failures"));
}
