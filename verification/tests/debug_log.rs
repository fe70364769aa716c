use ravel_lite::debug_log::{is_enabled, log, log_stream_line, DebugLog};
use ravel_lite::debug_log::{format_argv, format_unix_utc, is_leap, log_entry_lines, stream_log_line};

#[test]
fn format_unix_utc_known_timestamp() {
    assert_eq!(format_unix_utc(0), "1970-01-01T00:00:00Z");
    assert_eq!(format_unix_utc(1_704_067_200), "2024-01-01T00:00:00Z");
}

#[test]
fn format_argv_renders_one_arg_per_line() {
    let out = format_argv("pi", &["-p".to_string(), "hello".to_string()]);
    assert_eq!(out, "argv:\n    pi\n    -p\n    hello");
}

#[test]
fn format_unix_utc_handles_leap_days_and_time_of_day() {
    assert_eq!(format_unix_utc(951_782_400), "2000-02-29T00:00:00Z");
    assert_eq!(format_unix_utc(1_709_251_199), "2024-02-29T23:59:59Z");
    assert_eq!(format_unix_utc(4_102_444_800), "2100-01-01T00:00:00Z");
}

#[test]
fn leap_years_follow_the_gregorian_rule() {
    assert!(is_leap(2000));
    assert!(is_leap(2024));
    assert!(!is_leap(1900));
    assert!(!is_leap(2023));
}

#[test]
fn format_argv_without_arguments_is_two_lines() {
    assert_eq!(format_argv("git", &[]), "argv:\n    git");
}

#[test]
fn log_entry_indents_each_body_line() {
    let lines = log_entry_lines("T", "spawn", "a\nb");
    assert_eq!(lines, vec!["[T] spawn".to_string(), "    a".to_string(), "    b".to_string()]);
    let lines = log_entry_lines("T", "opened", "");
    assert_eq!(lines, vec!["[T] opened".to_string()]);
}

#[test]
fn stream_log_line_labels_agent_and_channel() {
    assert_eq!(stream_log_line("T", "pi", "stdout", "line"), "[T] pi:stdout line");
}

#[test]
fn log_when_disabled_is_noop() {
    let dl = DebugLog::disabled();
    assert!(log(&dl, "test", "no debug log enabled").is_empty());
    assert!(log_stream_line(&dl, "pi", "stdout", "line").is_none());
    assert!(!is_enabled(&dl));
}

#[test]
fn enabled_log_stamps_and_indents() {
    let dl = DebugLog::enable("/tmp/x.log");
    assert!(is_enabled(&dl));
    let lines = log(&dl, "spawn", "a\nb");
    assert_eq!(lines.len(), 3);
    assert!(lines[0].starts_with('[') && lines[0].ends_with("] spawn"));
    assert_eq!(lines[1], "    a");
    assert_eq!(lines[2], "    b");
    let l = log_stream_line(&dl, "pi", "stdout", "{}").unwrap();
    assert!(l.ends_with("] pi:stdout {}"));
}
