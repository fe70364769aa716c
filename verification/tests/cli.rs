use ravel_lite::agents::{create_session_args, pi_interactive_args, AgentConfig};
use ravel_lite::agents::build_subagent_prompt;
use ravel_lite::cli::{plan_projects, resolve_body, BodySource};
use ravel_lite::config::discovery_guidance;
use ravel_lite::git::{dirty_args, work_tree_snapshot_text};
use ravel_lite::pivot::frame_to_context;
use ravel_lite::types::SubagentDispatch;

#[test]
fn body_comes_from_exactly_one_source() {
    assert!(matches!(resolve_body(Some("/tmp/b".to_string()), None), Ok(BodySource::File(p)) if p == "/tmp/b"));
    assert!(matches!(resolve_body(None, Some("-".to_string())), Ok(BodySource::Stdin)));
    assert!(matches!(resolve_body(None, Some("text".to_string())), Ok(BodySource::Text(t)) if t == "text"));
    assert!(matches!(resolve_body(None, None), Ok(BodySource::Empty)));
    match resolve_body(Some("/tmp/b".to_string()), Some("x".to_string())) {
        Err(e) => assert_eq!(e, "pass only one of --body-file or --body"),
        Ok(_) => panic!("both sources must be refused"),
    }
}

#[test]
fn plan_projects_are_distinct_and_sorted() {
    let plans = vec![
        ("/dev/zeta/LLM_STATE/core".to_string(), None),
        ("/dev/alpha/LLM_STATE/core".to_string(), None),
        ("link/LLM_STATE/other".to_string(), Some("/dev/zeta/LLM_STATE/other".to_string())),
    ];
    assert_eq!(plan_projects(&plans).unwrap(), vec!["/dev/alpha".to_string(), "/dev/zeta".to_string()]);
    let shallow = vec![("/dev/alpha/LLM_STATE/core".to_string(), None), ("/x".to_string(), None)];
    let err = plan_projects(&shallow).unwrap_err();
    assert!(err.contains("/x"));
    assert!(err.contains("expected <subtree>/<state-dir>/<plan> layout"));
}

#[test]
fn work_tree_snapshot_reports_changes_and_clean_tree() {
    let text = work_tree_snapshot_text(
        "abc123",
        &Some(" src/a.rs | 2 +-\n 1 file changed\n".to_string()),
        &Some("?? new.txt\n".to_string()),
    );
    assert_eq!(
        text,
        "Files changed since work baseline (git diff --stat abc123):\n src/a.rs | 2 +-\n 1 file changed\n\nCurrently uncommitted or untracked (git status --porcelain):\n?? new.txt"
    );
    let clean = work_tree_snapshot_text("abc123", &Some("\n".to_string()), &Some(String::new()));
    assert!(clean.contains("(no tracked-file changes since baseline)"));
    assert!(clean.contains("(clean — nothing uncommitted or untracked)"));
    let failed = work_tree_snapshot_text("abc123", &None, &None);
    assert!(failed.contains("(git diff --stat failed)"));
    assert!(failed.contains("(git status failed)"));
}

#[test]
fn dirty_args_scope_to_subtree_unless_top() {
    let base = vec!["diff".to_string(), "HEAD".to_string()];
    assert_eq!(dirty_args(&base, ""), vec!["diff", "HEAD"]);
    assert_eq!(dirty_args(&base, "sub/dir"), vec!["diff", "HEAD", "--", "sub/dir"]);
}

#[test]
fn discovery_guidance_depends_on_location() {
    let at_default = discovery_guidance("/home/u/.config/ravel-lite", Some("/home/u/.config/ravel-lite".to_string()));
    assert_eq!(at_default, vec!["", "  Config is at the default location; ravel-lite will discover it automatically."]);
    let trailing = discovery_guidance("/home/u/.config/ravel-lite/", Some("/home/u/.config/ravel-lite".to_string()));
    assert_eq!(trailing.len(), 2);
    let elsewhere = discovery_guidance("/opt/cfg", Some("/home/u/.config/ravel-lite".to_string()));
    assert_eq!(
        elsewhere,
        vec![
            "",
            "  To use this config as the default for ravel-lite, set:",
            "    export RAVEL_LITE_CONFIG=/opt/cfg",
            "  Or pass --config /opt/cfg on each invocation.",
        ]
    );
    assert_eq!(discovery_guidance("/opt/cfg", None).len(), 4);
}

#[test]
fn frame_context_needs_a_repository_above() {
    let err = frame_to_context("/definitely/not/a/repo/for/ravel/LLM_STATE/core", String::new(), "/cfg").err().unwrap();
    assert_eq!(err, "No .git ancestor found for plan /definitely/not/a/repo/for/ravel/LLM_STATE/core");
}

#[test]
fn subagent_prompt_names_target_kind_and_summary() {
    let d = SubagentDispatch { target: "/p/LLM_STATE/x".to_string(), kind: "sibling".to_string(), summary: "use v2".to_string() };
    let prompt = build_subagent_prompt(&d);
    assert!(prompt.starts_with("Plan at /p/LLM_STATE/x.\nThis is a sibling plan"));
    assert!(prompt.contains("Summary of learnings to apply:\nuse v2\n\n"));
    assert!(prompt.ends_with("only change what the summary warrants."));
}

#[test]
fn create_session_needs_a_work_model() {
    let mut config = AgentConfig { models: vec![], thinking: vec![], dangerous: vec![], provider: None };
    assert_eq!(
        create_session_args(&config, "P", "/plans").unwrap_err(),
        "Agent config is missing a `models.work` entry; cannot select a model for create."
    );
    config.models.push(("work".to_string(), "m1".to_string()));
    assert_eq!(create_session_args(&config, "P", "/plans").unwrap(), vec!["P", "--model", "m1", "--add-dir", "/plans"]);
}

#[test]
fn pi_interactive_carries_prompt_in_system_prompt() {
    let config = AgentConfig {
        models: vec![("work".to_string(), "m".to_string())],
        thinking: vec![("work".to_string(), "high".to_string())],
        dangerous: vec![],
        provider: Some("openai".to_string()),
    };
    assert_eq!(
        pi_interactive_args(&config, "SYS", "MEM", "GO"),
        vec![
            "--no-session",
            "--append-system-prompt",
            "SYS\n\nMEM\n\nGO",
            "--provider",
            "openai",
            "--model",
            "m",
            "--thinking",
            "high"
        ]
    );
}
