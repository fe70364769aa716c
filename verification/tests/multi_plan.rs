use ravel_lite::multi_plan::{
    build_plan_dir_map, options_from_response, plan_dir_for, select_plan_from_response, selection_menu, selection_options,
    selection_prompt, selection_step, PlanDirMap, PlanProbe, Recommendation, SelectionOption,
    SelectionStep, SurveyResponse,
};

fn make_response_with_order(order: &[(&str, &str)]) -> SurveyResponse {
    SurveyResponse {
        recommended_invocation_order: order
            .iter()
            .map(|(plan, rationale)| Recommendation {
                plan: plan.to_string(),
                order: 1,
                rationale: rationale.to_string(),
            })
            .collect(),
    }
}

fn make_empty_response() -> SurveyResponse {
    SurveyResponse { recommended_invocation_order: vec![] }
}

fn input_lines(text: &str) -> Vec<String> {
    text.split_inclusive('\n').map(|l| l.to_string()).collect()
}

fn plan_map(entries: &[(&str, &str)]) -> PlanDirMap {
    PlanDirMap { entries: entries.iter().map(|(k, p)| (k.to_string(), p.to_string())).collect() }
}

#[test]
fn options_from_response_uses_recommendation_order_when_present() {
    let response = make_response_with_order(&[("Proj/b", "Top priority"), ("Proj/a", "Secondary")]);
    let map = plan_map(&[("Proj/a", "/tmp/a"), ("Proj/b", "/tmp/b")]);
    let options = options_from_response(&response, &map).unwrap();
    assert_eq!(options.len(), 2);
    assert_eq!(options[0].key, "Proj/b");
    assert_eq!(options[0].rationale, "Top priority");
    assert_eq!(options[1].key, "Proj/a");
}

#[test]
fn options_from_response_falls_back_to_all_plans_sorted() {
    let response = make_empty_response();
    let map = plan_map(&[("Proj/z", "/tmp/z"), ("Proj/a", "/tmp/a"), ("Proj/m", "/tmp/m")]);
    let options = options_from_response(&response, &map).unwrap();
    assert_eq!(
        options.iter().map(|o| o.key.as_str()).collect::<Vec<_>>(),
        vec!["Proj/a", "Proj/m", "Proj/z"],
        "fallback must sort alphabetically for deterministic output"
    );
    for opt in &options {
        assert!(opt.rationale.is_empty(), "fallback has no rationales");
    }
}

#[test]
fn options_from_response_errors_on_hallucinated_plan() {
    let response = make_response_with_order(&[("Proj/ghost", "LLM made this up")]);
    let map = plan_map(&[("Proj/a", "/tmp/a")]);
    let msg = options_from_response(&response, &map).unwrap_err();
    assert!(msg.contains("Proj/ghost"), "error should name the offender: {msg}");
    assert!(msg.contains("LLM-drift"), "error should flag the drift to the user: {msg}");
}

#[test]
fn selection_menu_lists_ordinals_and_rationales() {
    let options = vec![
        SelectionOption { key: "Proj/b".into(), rationale: "Top".into() },
        SelectionOption { key: "Proj/a".into(), rationale: String::new() },
    ];
    let menu = selection_menu(&options);
    assert_eq!(menu, "\nSelect next plan to dispatch:\n  1. Proj/b  —  Top\n  2. Proj/a\n  0. exit\n");
    assert_eq!(selection_prompt(2), "\nEnter choice (1-2 or 0 to exit): ");
}

#[test]
fn selection_step_picks_exits_and_retries() {
    assert_eq!(selection_step(2, 0, Some("2\n")), SelectionStep::Pick(1));
    assert_eq!(selection_step(2, 0, Some("+1")), SelectionStep::Pick(0));
    assert_eq!(selection_step(2, 0, Some("0\n")), SelectionStep::Exit);
    assert_eq!(selection_step(2, 0, Some("q\n")), SelectionStep::Exit);
    assert_eq!(selection_step(2, 0, Some("QUIT")), SelectionStep::Exit);
    assert_eq!(selection_step(2, 0, None), SelectionStep::Exit);
    assert_eq!(
        selection_step(1, 0, Some("banana\n")),
        SelectionStep::Retry {
            attempts: 1,
            message: "  invalid input 'banana' — enter a number between 1 and 1 (or 0 to exit).".into()
        }
    );
    assert_eq!(
        selection_step(1, 1, Some("9\n")),
        SelectionStep::Retry {
            attempts: 2,
            message: "  invalid input '9' — enter a number between 1 and 1 (or 0 to exit).".into()
        }
    );
    assert_eq!(
        selection_step(1, 2, Some("z\n")),
        SelectionStep::GiveUp("3 invalid selection attempts; aborting.".into())
    );
}

#[test]
fn build_plan_dir_map_errors_on_duplicate_key() {
    let probes = vec![
        PlanProbe { dir: "/t/a/Proj/LLM_STATE/dup".into(), has_phase_md: true, key: Ok("Proj/dup".into()) },
        PlanProbe { dir: "/t/b/Proj/LLM_STATE/dup".into(), has_phase_md: true, key: Ok("Proj/dup".into()) },
    ];
    let err = build_plan_dir_map(&probes).unwrap_err();
    assert!(err.contains("same project/plan key"));
    assert!(err.contains("/t/a/Proj/LLM_STATE/dup and /t/b/Proj/LLM_STATE/dup"));
}

#[test]
fn build_plan_dir_map_errors_on_missing_phase_md() {
    let probes = vec![PlanProbe { dir: "/t/no-phase".into(), has_phase_md: false, key: Ok("t/no-phase".into()) }];
    let err = build_plan_dir_map(&probes).unwrap_err();
    assert!(err.contains("phase.md not found"));
}

#[test]
fn build_plan_dir_map_looks_up_directories_by_key() {
    let probes = vec![
        PlanProbe { dir: "/p/a".into(), has_phase_md: true, key: Ok("P/a".into()) },
        PlanProbe { dir: "/p/b".into(), has_phase_md: true, key: Ok("P/b".into()) },
    ];
    let map = build_plan_dir_map(&probes).unwrap();
    assert_eq!(plan_dir_for(&map, "P/b").as_deref(), Some("/p/b"));
    assert_eq!(plan_dir_for(&map, "P/c"), None);
}

#[test]
fn selection_options_refuses_an_empty_menu() {
    let err = selection_options(&make_empty_response(), &plan_map(&[])).unwrap_err();
    assert!(err.contains("no plans available for selection"));
}

#[test]
fn select_returns_the_chosen_plan_dir() {
    let response = make_response_with_order(&[("Proj/b", "Top"), ("Proj/a", "Second")]);
    let map = plan_map(&[("Proj/a", "/tmp/a"), ("Proj/b", "/tmp/b")]);
    let (picked, rendered) = select_plan_from_response(&response, &map, &input_lines("2\n"));
    assert_eq!(picked.unwrap(), Some("/tmp/a".to_string()));
    assert!(rendered.contains("1. Proj/b"), "prompt should list ordinal 1: {rendered}");
    assert!(rendered.contains("2. Proj/a"), "prompt should list ordinal 2: {rendered}");
    assert!(rendered.contains("Top"), "prompt should include rationale: {rendered}");
}

#[test]
fn select_retries_on_invalid_input_then_accepts() {
    let response = make_response_with_order(&[("Proj/a", "Only option")]);
    let map = plan_map(&[("Proj/a", "/tmp/a")]);
    let (picked, rendered) = select_plan_from_response(&response, &map, &input_lines("banana\n9\n1\n"));
    assert_eq!(picked.unwrap(), Some("/tmp/a".to_string()));
    assert!(rendered.contains("invalid input 'banana'"), "first rejection must explain itself: {rendered}");
    assert!(rendered.contains("invalid input '9'"), "second rejection must explain itself: {rendered}");
}

#[test]
fn select_bails_after_too_many_invalid_inputs() {
    let response = make_response_with_order(&[("Proj/a", "Only")]);
    let map = plan_map(&[("Proj/a", "/tmp/a")]);
    let (picked, _) = select_plan_from_response(&response, &map, &input_lines("x\ny\nz\n"));
    assert!(picked.unwrap_err().contains("invalid selection attempts"));
}

#[test]
fn select_treats_zero_as_exit() {
    let response = make_response_with_order(&[("Proj/a", "Only")]);
    let map = plan_map(&[("Proj/a", "/tmp/a")]);
    let (picked, _) = select_plan_from_response(&response, &map, &input_lines("0\n"));
    assert_eq!(picked.unwrap(), None);
}

#[test]
fn select_treats_q_as_exit() {
    let response = make_response_with_order(&[("Proj/a", "Only")]);
    let map = plan_map(&[("Proj/a", "/tmp/a")]);
    let (picked, _) = select_plan_from_response(&response, &map, &input_lines("q\n"));
    assert_eq!(picked.unwrap(), None);
}

#[test]
fn select_treats_eof_as_exit() {
    let response = make_response_with_order(&[("Proj/a", "Only")]);
    let map = plan_map(&[("Proj/a", "/tmp/a")]);
    let (picked, _) = select_plan_from_response(&response, &map, &input_lines(""));
    assert_eq!(picked.unwrap(), None);
}

#[test]
fn select_transcript_is_menu_then_prompts() {
    let response = make_response_with_order(&[("Proj/a", "")]);
    let map = plan_map(&[("Proj/a", "/tmp/a")]);
    let (picked, rendered) = select_plan_from_response(&response, &map, &input_lines("x\n1\n"));
    assert_eq!(picked.unwrap(), Some("/tmp/a".to_string()));
    assert_eq!(
        rendered,
        "\nSelect next plan to dispatch:\n  1. Proj/a\n  0. exit\n\nEnter choice (1-1 or 0 to exit):   invalid input 'x' — enter a number between 1 and 1 (or 0 to exit).\n\nEnter choice (1-1 or 0 to exit): "
    );
}

#[test]
fn select_refuses_drifted_recommendation_without_printing() {
    let response = make_response_with_order(&[("Proj/ghost", "x")]);
    let map = plan_map(&[("Proj/a", "/tmp/a")]);
    let (picked, rendered) = select_plan_from_response(&response, &map, &input_lines("1\n"));
    assert!(picked.unwrap_err().contains("Proj/ghost"));
    assert!(rendered.is_empty());
}
