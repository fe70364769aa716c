use ravel_lite::tool_input::extract_edit_context;
use ravel_lite::agent_common::StreamLineOutcome;
use ravel_lite::format::FormattedOutput;
use ravel_lite::stream::{parse_pi_stream_line, parse_stream_line};
use ravel_lite::tool_input::{clean_tool_name, extract_tool_detail};
use ravel_lite::types::LlmPhase;

use ravel_lite::json::JsonValue;

fn to_json(v: &serde_json::Value) -> JsonValue {
    match v {
        serde_json::Value::Null => JsonValue::Null,
        serde_json::Value::Bool(b) => JsonValue::Bool(*b),
        serde_json::Value::Number(n) => JsonValue::Number(n.to_string()),
        serde_json::Value::String(s) => JsonValue::Str(s.clone()),
        serde_json::Value::Array(a) => JsonValue::Array(a.iter().map(to_json).collect()),
        serde_json::Value::Object(m) => JsonValue::Object(m.iter().map(|(k, v)| (k.clone(), to_json(v))).collect()),
    }
}

fn parsed(line: &str) -> Option<JsonValue> {
    serde_json::from_str::<serde_json::Value>(line.trim()).ok().map(|v| to_json(&v))
}

fn flat(formatted: &FormattedOutput) -> String {
    formatted
        .lines
        .iter()
        .map(|l| l.0.iter().map(|s| s.text.as_str()).collect::<String>())
        .collect::<Vec<_>>()
        .join("\n")
}

fn expect_output(outcome: StreamLineOutcome) -> FormattedOutput {
    match outcome {
        StreamLineOutcome::Output(f) => f,
        StreamLineOutcome::Ignored => panic!("expected Output, got Ignored"),
        StreamLineOutcome::Malformed { snippet } => panic!("expected Output, got Malformed({snippet})"),
    }
}

#[test]
fn parse_tool_use_read() {
    let line = r#"{"type":"assistant","message":{"content":[{"type":"tool_use","name":"Read","input":{"file_path":"/foo/bar.md"}}]}}"#;
    let mut shown = Vec::new();
    let formatted = expect_output(parse_stream_line(line, Some(LlmPhase::Reflect), &mut shown));
    assert!(!formatted.persist);
    let text = flat(&formatted);
    assert!(text.contains("Read"));
    assert!(text.contains("/foo/bar.md"));
}

#[test]
fn parse_result_event() {
    let line = r#"{"type":"result","result":"[ADDED] New entry — description"}"#;
    let mut shown = Vec::new();
    let formatted = expect_output(parse_stream_line(line, Some(LlmPhase::Reflect), &mut shown));
    assert!(formatted.persist);
    assert!(flat(&formatted).contains("ADDED"));
}

#[test]
fn write_to_memory_file_is_highlighted() {
    let line = r#"{"type":"assistant","message":{"content":[{"type":"tool_use","name":"Write","input":{"file_path":"/plan/memory.yaml","content":"stuff"}}]}}"#;
    let mut shown = Vec::new();
    assert!(expect_output(parse_stream_line(line, Some(LlmPhase::Reflect), &mut shown)).persist);
    assert_eq!(shown, vec!["Updating memory".to_string()]);
}

#[test]
fn parse_highlight_write_memory() {
    let line = r#"{"type":"assistant","message":{"content":[{"type":"tool_use","name":"Write","input":{"file_path":"/plan/memory.md","content":"stuff"}}]}}"#;
    let mut shown = Vec::new();
    assert!(expect_output(parse_stream_line(line, Some(LlmPhase::Reflect), &mut shown)).persist);
}

#[test]
fn parse_ignores_empty_lines() {
    let mut shown = Vec::new();
    assert!(matches!(parse_stream_line("", None, &mut shown), StreamLineOutcome::Ignored));
    assert!(matches!(parse_stream_line("   ", None, &mut shown), StreamLineOutcome::Ignored));
}

#[test]
fn parse_unhandled_event_type_is_ignored() {
    let mut shown = Vec::new();
    assert!(matches!(
        parse_stream_line(r#"{"type":"system","subtype":"init"}"#, None, &mut shown),
        StreamLineOutcome::Ignored
    ));
}

#[test]
fn parse_malformed_json_surfaces_snippet() {
    let mut shown = Vec::new();
    let outcome = parse_stream_line("this is not json", None, &mut shown);
    let StreamLineOutcome::Malformed { snippet } = outcome else {
        panic!("expected Malformed");
    };
    assert_eq!(snippet, "this is not json");
}

#[test]
fn pi_parse_pi_tool_start() {
    let line = r#"{"type":"tool_execution_start","tool_name":"read","tool_input":{"file_path":"/foo.md"}}"#;
    let mut shown = Vec::new();
    let f = expect_output(parse_pi_stream_line(line, Some(LlmPhase::Reflect), &mut shown));
    assert!(!f.persist);
    assert!(flat(&f).contains("/foo.md"));
}

#[test]
fn pi_parse_pi_message_end() {
    let line = r#"{"type":"message_end","content":[{"type":"text","text":"[ADDED] done"}]}"#;
    let mut shown = Vec::new();
    let f = expect_output(parse_pi_stream_line(line, Some(LlmPhase::Reflect), &mut shown));
    assert!(f.persist);
    assert!(flat(&f).contains("ADDED"));
}

#[test]
fn pi_parse_pi_tool_error() {
    let line = r#"{"type":"tool_execution_end","isError":true}"#;
    let mut shown = Vec::new();
    let f = expect_output(parse_pi_stream_line(line, None, &mut shown));
    assert!(f.persist);
    assert!(flat(&f).contains("tool error"));
}

#[test]
fn pi_parse_pi_ignores_blank() {
    let mut shown = Vec::new();
    assert!(matches!(parse_pi_stream_line("", None, &mut shown), StreamLineOutcome::Ignored));
}

#[test]
fn parse_pi_malformed_json_surfaces_snippet() {
    let mut shown = Vec::new();
    let outcome = parse_pi_stream_line("not json at all", None, &mut shown);
    let StreamLineOutcome::Malformed { snippet } = outcome else {
        panic!("expected Malformed");
    };
    assert_eq!(snippet, "not json at all");
}

#[test]
fn format_clean_tool_name_strips_mcp_prefix() {
    assert_eq!(clean_tool_name("mcp__server__tool_name"), "tool_name");
    assert_eq!(clean_tool_name("Read"), "Read");
}

#[test]
fn grep_and_bash_details_are_summarised() {
    let mut shown = Vec::new();
    let line = r#"{"type":"assistant","message":{"content":[{"type":"text","text":"x"},{"type":"tool_use","name":"Grep","input":{"pattern":"fn main"}}]}}"#;
    let f = expect_output(parse_stream_line(line, Some(LlmPhase::Work), &mut shown));
    assert!(flat(&f).contains("\"fn main\" in ."), "got {}", flat(&f));
    let long = "x".repeat(200);
    let line = format!(r#"{{"type":"tool_execution_start","tool_name":"bash","tool_input":{{"command":"{long}"}}}}"#);
    let f = expect_output(parse_pi_stream_line(&line, Some(LlmPhase::Work), &mut shown));
    assert!(flat(&f).contains(&"x".repeat(120)));
    assert!(!flat(&f).contains(&"x".repeat(121)));
}

#[test]
fn tool_detail_prefers_known_members_and_shortens() {
    let input = parsed(r#"{"zzz":"other","query":"find me"}"#).unwrap();
    assert_eq!(extract_tool_detail(&input), "find me");
    let input = parsed(r#"{"aaa":"","zzz":"fallback"}"#).unwrap();
    assert_eq!(extract_tool_detail(&input), "fallback");
    let long = "y".repeat(100);
    let input = parsed(&format!(r#"{{"url":"{long}"}}"#)).unwrap();
    assert_eq!(extract_tool_detail(&input), format!("{}...", "y".repeat(77)));
    assert_eq!(extract_tool_detail(&JsonValue::Null), "");
}

#[test]
fn extract_edit_context_finds_headings() {
    assert_eq!(
        ravel_lite::tool_input::extract_edit_context(None, Some("## My Heading\nsome content")),
        Some("My Heading".to_string())
    );
}

#[test]
fn extract_edit_context_finds_bold() {
    assert_eq!(
        ravel_lite::tool_input::extract_edit_context(None, Some("update **Important Thing** here")),
        Some("Important Thing".to_string())
    );
}

#[test]
fn extract_edit_context_prefers_new_text_and_needs_some_text() {
    assert_eq!(extract_edit_context(Some("# Old"), Some("plain")), None);
    assert_eq!(extract_edit_context(Some("# Old  "), None), Some("Old".to_string()));
    assert_eq!(extract_edit_context(None, None), None);
}
