use ravel_lite::prompt::{compose_prompt, phase_file, plan_override_file, substitute_tokens, unresolved_token_error};
use ravel_lite::types::{LlmPhase, PlanContext};

fn test_ctx() -> PlanContext {
    PlanContext {
        plan_dir: "/plans/my-plan".to_string(),
        project_dir: "/project".to_string(),
        dev_root: "/dev".to_string(),
        related_plans: "related stuff".to_string(),
        config_root: "/config".to_string(),
    }
}

#[test]
fn prompt_substitutes_built_in_tokens() {
    let ctx = test_ctx();
    let result = substitute_tokens("plan={{PLAN}} project={{PROJECT}}", &ctx, &vec![]).unwrap();
    assert_eq!(result, "plan=/plans/my-plan project=/project");
}

#[test]
fn prompt_substitutes_custom_tokens() {
    let ctx = test_ctx();
    let tokens = vec![("TOOL_READ".to_string(), "Read".to_string())];
    let result = substitute_tokens("Use {{TOOL_READ}}", &ctx, &tokens).unwrap();
    assert_eq!(result, "Use Read");
}

#[test]
fn fails_on_unresolved_token() {
    let ctx = test_ctx();
    let msg = substitute_tokens("needs {{MEMORY_DIR}} here", &ctx, &vec![]).expect_err("unresolved token should fail");
    assert!(msg.contains("{{MEMORY_DIR}}"), "message was: {msg}");
}

#[test]
fn lists_all_unresolved_tokens_sorted_and_deduped() {
    let ctx = test_ctx();
    let msg = substitute_tokens("{{UNKNOWN_B}} and {{UNKNOWN_A}} and {{UNKNOWN_A}} again", &ctx, &vec![])
        .expect_err("unresolved tokens should fail");
    let a = msg.find("{{UNKNOWN_A}}").expect("missing UNKNOWN_A");
    let b = msg.find("{{UNKNOWN_B}}").expect("missing UNKNOWN_B");
    assert!(a < b, "names should be sorted: {msg}");
    assert_eq!(msg.matches("{{UNKNOWN_A}}").count(), 1, "dedup failed: {msg}");
}

#[test]
fn substitutes_path_tokens_inside_related_plans() {
    let ctx = PlanContext {
        plan_dir: "/plans/my-plan".to_string(),
        project_dir: "/project".to_string(),
        dev_root: "/dev".to_string(),
        related_plans: "- {{DEV_ROOT}}/Peer — sibling project".to_string(),
        config_root: "/config".to_string(),
    };
    let result = substitute_tokens("Related plans:\n{{RELATED_PLANS}}", &ctx, &vec![])
        .expect("path tokens inside related_plans should resolve");
    assert_eq!(result, "Related plans:\n- /dev/Peer — sibling project");
}

#[test]
fn accepts_single_brace_sequences() {
    let ctx = test_ctx();
    let result = substitute_tokens("keep {x} and {{not-a-token}}", &ctx, &vec![]).unwrap();
    assert_eq!(result, "keep {x} and {{not-a-token}}");
}

#[test]
fn compose_prompt_loads_and_substitutes() {
    let ctx = PlanContext {
        plan_dir: "/plans/test".to_string(),
        project_dir: "/project".to_string(),
        dev_root: "/dev".to_string(),
        related_plans: "".to_string(),
        config_root: "/config".to_string(),
    };
    let result = compose_prompt("Reflect on {{PLAN}}", None, &ctx, &vec![]).unwrap();
    assert_eq!(result, "Reflect on /plans/test");
}

#[test]
fn compose_prompt_appends_plan_override_after_rule() {
    let ctx = test_ctx();
    let result = compose_prompt("Base", Some("Extra for {{PLAN}}"), &ctx, &vec![]).unwrap();
    assert_eq!(result, "Base\n\n---\n\nExtra for /plans/my-plan");
}

#[test]
fn phase_and_override_files_are_named_by_phase() {
    assert_eq!(phase_file("/config", LlmPhase::Reflect), "/config/phases/reflect.md");
    assert_eq!(plan_override_file("/plans/p", LlmPhase::AnalyseWork), "/plans/p/prompt-analyse-work.md");
}

#[test]
fn unresolved_token_error_formats_sorted_names() {
    assert_eq!(unresolved_token_error(&vec![]), None);
    let msg = unresolved_token_error(&vec![Some("B".to_string()), None, Some("A".to_string()), Some("B".to_string())])
        .unwrap();
    assert_eq!(
        msg,
        "Prompt contains unresolved token(s) after substitution: {{A}}, {{B}}. This usually indicates a typo in a phase prompt or a missing agent-provided token."
    );
}
