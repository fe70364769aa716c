use ravel_lite::create::{compose_create_prompt, scaffold_files, validate_target, TargetProbe};

#[test]
fn compose_prompt_appends_target_path_section() {
    let out = compose_create_prompt("TEMPLATE", "/abs/plan");
    assert!(out.starts_with("TEMPLATE"));
    assert!(out.contains("Create a new plan at this absolute path"));
    assert!(out.contains("/abs/plan"));
}

#[test]
fn compose_prompt_separates_template_from_instructions_with_hr() {
    let out = compose_create_prompt("TEMPLATE", "/x");
    assert!(out.contains("\n\n---\n\n"));
}

#[test]
fn compose_prompt_asserts_plan_only_output_invariant() {
    let out = compose_create_prompt("TEMPLATE", "/abs/plan");
    assert!(out.contains("ONLY output from this session is a plan directory"), "got:\n{out}");
    assert!(out.contains("single-task plan is a valid plan"));
}

#[test]
fn validate_target_rejects_existing_directory() {
    let probe = TargetProbe { target_exists: true, parent_exists: true, parent_is_dir: true };
    let err = validate_target("/tmp/existing", &probe).unwrap_err();
    assert!(err.contains("already exists"));
}

#[test]
fn validate_target_creates_missing_parent_directories() {
    let probe = TargetProbe { target_exists: false, parent_exists: false, parent_is_dir: false };
    assert_eq!(validate_target("/tmp/a/b/new-plan", &probe), Ok(true));
}

#[test]
fn validate_target_accepts_new_path_under_existing_parent() {
    let probe = TargetProbe { target_exists: false, parent_exists: true, parent_is_dir: true };
    assert_eq!(validate_target("/tmp/new-plan", &probe), Ok(false));
}

#[test]
fn validate_target_rejects_file_parent() {
    let probe = TargetProbe { target_exists: false, parent_exists: true, parent_is_dir: false };
    assert_eq!(
        validate_target("/tmp/f/new-plan", &probe),
        Err("Parent path /tmp/f exists but is not a directory.".to_string())
    );
}

#[test]
fn scaffold_plan_dir_writes_cli_parseable_state_files() {
    let files = scaffold_files();
    assert_eq!(
        files,
        vec![
            ("phase.md".to_string(), "work\n".to_string()),
            ("backlog.yaml".to_string(), "tasks: []\n".to_string()),
            ("memory.yaml".to_string(), "entries: []\n".to_string()),
            ("dream-word-count".to_string(), "0".to_string()),
        ]
    );
}
