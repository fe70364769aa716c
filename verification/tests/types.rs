use ravel_lite::types::{LlmPhase, Phase, ScriptPhase};

#[test]
fn parse_llm_phases() {
    assert_eq!(Phase::parse("work"), Some(Phase::Llm(LlmPhase::Work)));
    assert_eq!(Phase::parse("analyse-work"), Some(Phase::Llm(LlmPhase::AnalyseWork)));
    assert_eq!(Phase::parse("reflect"), Some(Phase::Llm(LlmPhase::Reflect)));
    assert_eq!(Phase::parse("dream"), Some(Phase::Llm(LlmPhase::Dream)));
    assert_eq!(Phase::parse("triage"), Some(Phase::Llm(LlmPhase::Triage)));
}

#[test]
fn parse_script_phases() {
    assert_eq!(Phase::parse("git-commit-work"), Some(Phase::Script(ScriptPhase::GitCommitWork)));
    assert_eq!(Phase::parse("git-commit-reflect"), Some(Phase::Script(ScriptPhase::GitCommitReflect)));
    assert_eq!(Phase::parse("git-commit-dream"), Some(Phase::Script(ScriptPhase::GitCommitDream)));
    assert_eq!(Phase::parse("git-commit-triage"), Some(Phase::Script(ScriptPhase::GitCommitTriage)));
}

#[test]
fn parse_invalid_phase() {
    assert_eq!(Phase::parse("invalid"), None);
    assert_eq!(Phase::parse(""), None);
}

#[test]
fn phase_display() {
    assert_eq!(Phase::Llm(LlmPhase::AnalyseWork).to_string(), "analyse-work");
    assert_eq!(Phase::Script(ScriptPhase::GitCommitReflect).to_string(), "git-commit-reflect");
}

#[test]
fn phase_names_round_trip_through_parse() {
    let all = [
        Phase::Llm(LlmPhase::Work),
        Phase::Llm(LlmPhase::AnalyseWork),
        Phase::Llm(LlmPhase::Reflect),
        Phase::Llm(LlmPhase::Dream),
        Phase::Llm(LlmPhase::Triage),
        Phase::Script(ScriptPhase::GitCommitWork),
        Phase::Script(ScriptPhase::GitCommitReflect),
        Phase::Script(ScriptPhase::GitCommitDream),
        Phase::Script(ScriptPhase::GitCommitTriage),
    ];
    for p in all {
        assert_eq!(Phase::parse(&p.to_string()), Some(p));
    }
    assert_eq!(LlmPhase::from_str("reflect"), Some(LlmPhase::Reflect));
    assert_eq!(ScriptPhase::from_str("git-commit-dream"), Some(ScriptPhase::GitCommitDream));
    assert_eq!(LlmPhase::Triage.as_str(), "triage");
    assert_eq!(ScriptPhase::GitCommitWork.as_str(), "git-commit-work");
}
