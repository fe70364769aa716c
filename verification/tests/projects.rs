use ravel_lite::projects::{ensure_in_catalog_interactive, CatalogStep};
use ravel_lite::projects::{
    auto_add, collision_prompt, load_or_empty, resolve_alternative_name, run_add, run_remove, run_rename,
    try_add_named, AutoAddOutcome, ProjectEntry, ProjectsCatalog, SCHEMA_VERSION,
};

#[test]
fn load_or_empty_returns_empty_catalog_when_file_missing() {
    let catalog = load_or_empty(None, "/cfg/projects.yaml").unwrap();
    assert_eq!(catalog.schema_version, SCHEMA_VERSION);
    assert!(catalog.projects.is_empty());
}

#[test]
fn load_rejects_unknown_schema_version() {
    let parsed = ProjectsCatalog { schema_version: 99, projects: vec![] };
    let msg = load_or_empty(Some(parsed), "/cfg/projects.yaml").unwrap_err();
    assert!(msg.contains("schema_version"));
    assert!(msg.contains("99"));
}

#[test]
fn auto_add_adds_under_basename_when_empty() {
    let project = "/tmp/t1/Ravel-Lite";
    let mut catalog = ProjectsCatalog::default();
    let outcome = auto_add(&mut catalog, project).unwrap();
    assert_eq!(outcome, AutoAddOutcome::Added { name: "Ravel-Lite".to_string() });
    assert_eq!(catalog.projects.len(), 1);
    assert_eq!(catalog.projects[0].name, "Ravel-Lite");
    assert_eq!(catalog.projects[0].path, project);
}

#[test]
fn auto_add_is_idempotent_by_path() {
    let project = "/tmp/t2/my-proj";
    let mut catalog = ProjectsCatalog::default();
    auto_add(&mut catalog, project).unwrap();
    let outcome = auto_add(&mut catalog, project).unwrap();
    assert_eq!(outcome, AutoAddOutcome::AlreadyCatalogued { name: "my-proj".to_string() });
    assert_eq!(catalog.projects.len(), 1);
}

#[test]
fn auto_add_reports_name_collision_for_same_basename_different_path() {
    let project_a = "/tmp/ta/shared-name";
    let project_b = "/tmp/tb/shared-name";
    let mut catalog = ProjectsCatalog::default();
    auto_add(&mut catalog, project_a).unwrap();
    let outcome = auto_add(&mut catalog, project_b).unwrap();
    assert_eq!(
        outcome,
        AutoAddOutcome::NameCollision { attempted_name: "shared-name".to_string(), existing_path: project_a.to_string() }
    );
    assert_eq!(catalog.projects.len(), 1, "collision must not mutate catalog");
}

#[test]
fn try_add_named_rejects_duplicate_name() {
    let mut catalog = ProjectsCatalog::default();
    try_add_named(&mut catalog, "taken", "/tmp/t/a").unwrap();
    let err = try_add_named(&mut catalog, "taken", "/tmp/t/b").unwrap_err();
    assert!(err.contains("already in use"));
}

#[test]
fn try_add_named_is_noop_when_exact_same_entry_already_present() {
    let mut catalog = ProjectsCatalog::default();
    try_add_named(&mut catalog, "a", "/tmp/t/a").unwrap();
    try_add_named(&mut catalog, "a", "/tmp/t/a").unwrap();
    assert_eq!(catalog.projects.len(), 1);
}

#[test]
fn try_add_named_rejects_same_path_under_different_name() {
    let mut catalog = ProjectsCatalog::default();
    try_add_named(&mut catalog, "a", "/tmp/t/a").unwrap();
    let err = try_add_named(&mut catalog, "b", "/tmp/t/a").unwrap_err();
    assert!(err.contains("already catalogued"));
}

#[test]
fn run_add_uses_basename_without_explicit_name() {
    let mut catalog = ProjectsCatalog::default();
    run_add(&mut catalog, None, "/tmp/t/abs-proj").unwrap();
    assert_eq!(catalog.projects[0].name, "abs-proj");
    run_add(&mut catalog, Some("other"), "/tmp/t/other-proj").unwrap();
    assert_eq!(catalog.projects[1].name, "other");
    assert!(run_add(&mut catalog, None, "/").is_err());
}

#[test]
fn run_remove_drops_the_named_entry_or_errors() {
    let mut catalog = ProjectsCatalog::default();
    try_add_named(&mut catalog, "a", "/p/a").unwrap();
    try_add_named(&mut catalog, "b", "/p/b").unwrap();
    run_remove(&mut catalog, "a", "/cfg/projects.yaml").unwrap();
    assert_eq!(catalog.projects, vec![ProjectEntry { name: "b".into(), path: "/p/b".into() }]);
    let err = run_remove(&mut catalog, "zzz", "/cfg/projects.yaml").unwrap_err();
    assert_eq!(err, "no project named 'zzz' in catalog at /cfg/projects.yaml");
}

#[test]
fn run_rename_renames_once_and_refuses_taken_names() {
    let mut catalog = ProjectsCatalog::default();
    try_add_named(&mut catalog, "a", "/p/a").unwrap();
    try_add_named(&mut catalog, "b", "/p/b").unwrap();
    assert_eq!(run_rename(&mut catalog, "a", "a"), Ok(false));
    assert_eq!(run_rename(&mut catalog, "a", "b"), Err("cannot rename to 'b': name already in use".to_string()));
    assert_eq!(run_rename(&mut catalog, "x", "y"), Err("no project named 'x' in catalog".to_string()));
    assert_eq!(run_rename(&mut catalog, "a", "c"), Ok(true));
    assert_eq!(catalog.projects[0], ProjectEntry { name: "c".into(), path: "/p/a".into() });
}

#[test]
fn find_by_name_and_path_return_the_first_match() {
    let mut catalog = ProjectsCatalog::default();
    try_add_named(&mut catalog, "a", "/p/a").unwrap();
    assert_eq!(catalog.find_by_name("a").map(|e| e.path.as_str()), Some("/p/a"));
    assert_eq!(catalog.find_by_path("/p/a").map(|e| e.name.as_str()), Some("a"));
    assert!(catalog.find_by_name("b").is_none());
}

#[test]
fn alternative_name_answers_are_checked() {
    let mut catalog = ProjectsCatalog::default();
    try_add_named(&mut catalog, "taken", "/p/a").unwrap();
    assert_eq!(resolve_alternative_name(&catalog, "  fresh \n", "/p/b"), Ok("fresh".to_string()));
    assert!(resolve_alternative_name(&catalog, "\n", "/p/b").unwrap_err().contains("aborted by user"));
    assert!(resolve_alternative_name(&catalog, "taken\n", "/p/b").unwrap_err().contains("also already in use"));
    assert!(collision_prompt("x", "/p/a", "/p/b").contains("existing: /p/a"));
}

#[test]
fn ensure_in_catalog_asks_on_collision_then_adds_under_answer() {
    let mut catalog = ProjectsCatalog::default();
    try_add_named(&mut catalog, "app", "/a/app").unwrap();
    match ensure_in_catalog_interactive(&mut catalog, "/b/app", None) {
        CatalogStep::Ask(prompt) => {
            assert_eq!(
                prompt,
                "project name 'app' is already used for a different path:\n  existing: /a/app\n  adding:   /b/app\nenter a different name (blank to abort): "
            );
        },
        _ => panic!("expected a prompt"),
    }
    assert_eq!(catalog.projects.len(), 1);
    match ensure_in_catalog_interactive(&mut catalog, "/b/app", Some("  app-b \n")) {
        CatalogStep::Added(name) => assert_eq!(name, "app-b"),
        _ => panic!("expected the answer to be used"),
    }
    assert_eq!(catalog.projects.len(), 2);
    match ensure_in_catalog_interactive(&mut catalog, "/b/app", None) {
        CatalogStep::Known(name) => assert_eq!(name, "app-b"),
        _ => panic!("expected the path to be known"),
    }
}

#[test]
fn ensure_in_catalog_blank_or_taken_answer_fails() {
    let mut catalog = ProjectsCatalog::default();
    try_add_named(&mut catalog, "app", "/a/app").unwrap();
    try_add_named(&mut catalog, "other", "/a/other").unwrap();
    match ensure_in_catalog_interactive(&mut catalog, "/b/app", Some("\n")) {
        CatalogStep::Failed(e) => assert!(e.contains("aborted by user")),
        _ => panic!("blank answer must abort"),
    }
    match ensure_in_catalog_interactive(&mut catalog, "/b/app", Some("other")) {
        CatalogStep::Failed(e) => assert!(e.contains("'other' is also already in use")),
        _ => panic!("taken name must be refused"),
    }
    assert_eq!(catalog.projects.len(), 2);
    match ensure_in_catalog_interactive(&mut catalog, "/c/fresh", None) {
        CatalogStep::Added(name) => assert_eq!(name, "fresh"),
        _ => panic!("expected a plain add"),
    }
}
