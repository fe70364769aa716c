use ravel_lite::git::{
    default_commit_message, parse_name_only, parse_status_lines, planned_commits, project_root_for_plan,
    CommitSpec, CommitsSpec,
};

#[test]
fn project_root_for_plan_errors_on_shallow_path() {
    let result = project_root_for_plan("/", None);
    assert!(result.is_err(), "shallow path should error, got {result:?}");
}

#[test]
fn project_root_for_plan_works_on_non_existent_paths() {
    let root = project_root_for_plan("/a/b/c", None).unwrap();
    assert_eq!(root, "/a");
}

#[test]
fn project_root_for_plan_prefers_the_canonical_path() {
    assert_eq!(project_root_for_plan("x/y/z", Some("/real/proj/LLM_STATE/z")).unwrap(), "/real/proj");
}

#[test]
fn commits_spec_falls_back_to_one_catch_all_commit() {
    let plan = planned_commits(None, "work", "core");
    assert_eq!(plan.len(), 1);
    assert!(plan[0].paths.is_none());
    assert_eq!(plan[0].message, "run-plan: work (core)");
    let empty = planned_commits(Some(CommitsSpec { commits: vec![] }), "work", "core");
    assert_eq!(empty.len(), 1);
    assert_eq!(default_commit_message("reflect", "p"), "run-plan: reflect (p)");
}

#[test]
fn commits_spec_entries_become_commits_in_order() {
    let spec = CommitsSpec {
        commits: vec![
            CommitSpec { paths: vec!["src/**".into()], message: "first".into() },
            CommitSpec { paths: vec![":!src/gen/".into(), "docs".into()], message: "second".into() },
        ],
    };
    let plan = planned_commits(Some(spec), "work", "core");
    assert_eq!(plan.len(), 2);
    assert_eq!(plan[0].paths.as_ref().unwrap(), &vec!["src/**".to_string()]);
    assert_eq!(plan[1].message, "second");
}

#[test]
fn name_only_output_is_trimmed_and_blank_free() {
    assert_eq!(parse_name_only("a.rs\n  b.rs \n\n"), vec!["a.rs".to_string(), "b.rs".to_string()]);
    assert_eq!(parse_status_lines(" M a.rs\n?? b.rs\n"), vec![" M a.rs".to_string(), "?? b.rs".to_string()]);
}

#[test]
fn project_root_for_plan_refuses_a_plan_one_level_below_root() {
    assert!(project_root_for_plan("/a/plan", None).is_err());
    assert!(project_root_for_plan("/plan", None).is_err());
    assert_eq!(project_root_for_plan("/p/a/plan", None).unwrap(), "/p");
}
