use ravel_lite::types::StatusInfo;
use ravel_lite::ui_state::{live_lines, status_text, AppState, UIMessage};

fn group<'a>(state: &'a AppState, id: &str) -> Option<&'a ravel_lite::ui_state::AgentProgress> {
    state.progress_groups.iter().find(|(k, _)| k == id).map(|(_, g)| g)
}

#[test]
fn state_handles_log() {
    let mut state = AppState::new();
    state.handle_message(UIMessage::Log("hello\nworld".to_string()));
    assert_eq!(state.log_lines, vec!["hello", "world"]);
}

#[test]
fn state_handles_agent_lifecycle() {
    let mut state = AppState::new();
    state.handle_message(UIMessage::RegisterAgent {
        agent_id: "sub-B".to_string(),
        header: "→ child: sub-B".to_string(),
    });
    assert!(group(&state, "sub-B").is_some());

    state.handle_message(UIMessage::Progress { agent_id: "sub-B".to_string(), text: "Read memory.md".to_string() });
    assert_eq!(group(&state, "sub-B").unwrap().progress.as_deref(), Some("Read memory.md"));

    state.handle_message(UIMessage::AgentDone { agent_id: "sub-B".to_string() });
    assert!(group(&state, "sub-B").is_none());
}

#[test]
fn state_handles_persist() {
    let mut state = AppState::new();
    state.handle_message(UIMessage::Persist { agent_id: "main".to_string(), text: "★ Updating memory".to_string() });
    assert_eq!(state.log_lines, vec!["★ Updating memory"]);
}

#[test]
fn reregistering_keeps_order_and_resets_progress() {
    let mut state = AppState::new();
    for id in ["a", "b", "c"] {
        state.handle_message(UIMessage::RegisterAgent { agent_id: id.to_string(), header: format!("h-{id}") });
    }
    state.handle_message(UIMessage::Progress { agent_id: "a".to_string(), text: "busy".to_string() });
    state.handle_message(UIMessage::Progress { agent_id: "zz".to_string(), text: "ignored".to_string() });
    state.handle_message(UIMessage::RegisterAgent { agent_id: "a".to_string(), header: "again".to_string() });
    state.handle_message(UIMessage::AgentDone { agent_id: "b".to_string() });
    let ids: Vec<&str> = state.progress_groups.iter().map(|(k, _)| k.as_str()).collect();
    assert_eq!(ids, vec!["a", "c"]);
    assert_eq!(group(&state, "a").unwrap().header, "again");
    assert!(group(&state, "a").unwrap().progress.is_none());
}

#[test]
fn status_and_confirm_are_recorded() {
    let mut state = AppState::new();
    state.handle_message(UIMessage::SetStatus(StatusInfo {
        project: "p".to_string(),
        plan: "core".to_string(),
        phase: "work".to_string(),
        agent: "pi".to_string(),
        cycle: Some(2),
    }));
    state.handle_message(UIMessage::Confirm { message: "Proceed?".to_string() });
    state.handle_message(UIMessage::Quit);
    assert_eq!(state.status.as_ref().unwrap().cycle, Some(2));
    assert_eq!(state.confirm_prompt.as_ref().unwrap().message, "Proceed?");
    assert!(state.log_lines.is_empty());
}

#[test]
fn status_bar_text() {
    assert_eq!(status_text(&None), " raveloop");
    let s = StatusInfo {
        project: "p".to_string(),
        plan: "core".to_string(),
        phase: "work".to_string(),
        agent: "pi".to_string(),
        cycle: Some(3),
    };
    assert_eq!(status_text(&Some(s.clone())), " p · core · work · pi · cycle 3");
    let mut no_cycle = s;
    no_cycle.cycle = None;
    assert_eq!(status_text(&Some(no_cycle)), " p · core · work · pi");
}

#[test]
fn live_area_shows_groups_then_question() {
    let mut state = AppState::new();
    state.handle_message(UIMessage::RegisterAgent { agent_id: "a".to_string(), header: "→ a".to_string() });
    state.handle_message(UIMessage::Progress { agent_id: "a".to_string(), text: "Read x".to_string() });
    state.handle_message(UIMessage::RegisterAgent { agent_id: "b".to_string(), header: "→ b".to_string() });
    state.handle_message(UIMessage::Confirm { message: "Go?".to_string() });
    let lines = live_lines(&state);
    let texts: Vec<String> = lines.iter().map(|l| l.0.iter().map(|s| s.text.as_str()).collect()).collect();
    assert_eq!(texts, vec!["→ a", "      Read x", "→ b", "", "", "  ▶  Go? [Y/n] "]);
}
