use ravel_lite::phase_loop::{
    dirty_tree_warning, header_scope, next_after_script_phase, parse_porcelain_path, plan_name,
    project_name,
};
use ravel_lite::types::{LlmPhase, Phase, ScriptPhase};

#[test]
fn project_name_strips_to_basename() {
    assert_eq!(project_name("/Users/x/Development/ravel-lite"), "ravel-lite");
    assert_eq!(project_name("ravel-lite"), "ravel-lite");
}

#[test]
fn project_name_handles_trailing_slash() {
    assert_eq!(project_name("/Users/x/ravel-lite/"), "ravel-lite");
}

#[test]
fn project_name_empty_when_unparseable() {
    assert_eq!(project_name(""), "");
    assert_eq!(project_name("/"), "");
}

#[test]
fn header_scope_combines_project_and_plan() {
    assert_eq!(header_scope("ravel-lite", "core"), "ravel-lite / core");
}

#[test]
fn header_scope_falls_back_to_plan_when_project_empty() {
    assert_eq!(header_scope("", "core"), "core");
}

#[test]
fn parse_porcelain_path_handles_modified_file() {
    assert_eq!(parse_porcelain_path(" M src/foo.rs").as_deref(), Some("src/foo.rs"));
    assert_eq!(parse_porcelain_path("M  src/foo.rs").as_deref(), Some("src/foo.rs"));
}

#[test]
fn parse_porcelain_path_handles_untracked() {
    assert_eq!(parse_porcelain_path("?? new.rs").as_deref(), Some("new.rs"));
}

#[test]
fn parse_porcelain_path_returns_new_name_for_rename() {
    assert_eq!(
        parse_porcelain_path("R  old/path.rs -> new/path.rs").as_deref(),
        Some("new/path.rs")
    );
}

#[test]
fn parse_porcelain_path_returns_none_on_too_short_input() {
    assert_eq!(parse_porcelain_path(""), None);
    assert_eq!(parse_porcelain_path("ab"), None);
}

#[test]
fn plan_name_is_the_plan_directory_basename() {
    assert_eq!(plan_name("/work/proj/LLM_STATE/core"), "core");
}

#[test]
fn script_phases_hand_over_in_cycle_order() {
    assert_eq!(
        next_after_script_phase(ScriptPhase::GitCommitWork, false),
        (Phase::Llm(LlmPhase::Reflect), true)
    );
    assert_eq!(
        next_after_script_phase(ScriptPhase::GitCommitReflect, true),
        (Phase::Llm(LlmPhase::Dream), true)
    );
    assert_eq!(
        next_after_script_phase(ScriptPhase::GitCommitReflect, false),
        (Phase::Llm(LlmPhase::Triage), true)
    );
    assert_eq!(
        next_after_script_phase(ScriptPhase::GitCommitDream, false),
        (Phase::Llm(LlmPhase::Triage), true)
    );
    assert_eq!(
        next_after_script_phase(ScriptPhase::GitCommitTriage, true),
        (Phase::Llm(LlmPhase::Work), false)
    );
}

#[test]
fn clean_tree_gives_no_warning() {
    let out = dirty_tree_warning(&vec![], &None);
    assert!(out.is_empty());
}

#[test]
fn dirty_tree_warning_lists_paths_and_counts_the_rest() {
    let dirty: Vec<String> = (0..23).map(|i| format!(" M f{i}.rs")).collect();
    let out = dirty_tree_warning(&dirty, &None);
    assert_eq!(out.len(), 3 + 20 + 1);
    assert!(out[0].contains("WARNING: uncommitted changes remain"));
    assert_eq!(out[3], "        M f0.rs");
    assert_eq!(out[23], "       ... and 3 more (run `git status` for the full list)");
}

#[test]
fn dirty_tree_warning_narrows_to_paths_touched_since_baseline() {
    let dirty = vec![
        " M touched.rs".to_string(),
        " M untouched.rs".to_string(),
        "?? brand-new.rs".to_string(),
    ];
    let touched = Some(vec!["touched.rs".to_string()]);
    let out = dirty_tree_warning(&dirty, &touched);
    assert_eq!(out.len(), 5);
    assert_eq!(out[3], "        M touched.rs");
    assert_eq!(out[4], "       ?? brand-new.rs");
}
