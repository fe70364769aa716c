use ravel_lite::filenames::{BACKLOG_FILENAME, LATEST_SESSION_FILENAME, MEMORY_FILENAME};
use ravel_lite::format::{
    format_result_text, format_tool_call, phase_info, ravel_state_target_file, Intent, Style, StyledLine,
    ToolCall, LABEL_WIDTH,
};
use ravel_lite::types::LlmPhase;

fn flat_text(line: &StyledLine) -> String {
    line.0.iter().map(|s| s.text.as_str()).collect::<String>()
}

fn flat_text_all(lines: &[StyledLine]) -> String {
    lines.iter().map(flat_text).collect::<Vec<_>>().join("\n")
}

#[test]
fn format_format_tool_call_highlight_memory() {
    let mut shown = Vec::new();
    let result = format_tool_call(
        &ToolCall { name: "Write".to_string(), path: Some("/plan/memory.yaml".to_string()), detail: None },
        Some(LlmPhase::Reflect),
        &mut shown,
    );
    assert!(result.persist);
    assert_eq!(result.lines.len(), 1);
    assert!(flat_text(&result.lines[0]).contains("Updating memory"));
    let emph = result.lines[0].0.iter().find(|s| s.text.contains("Updating memory")).expect("emph span");
    assert_eq!(emph.style, Style::bold_intent(Intent::Added));
}

#[test]
fn format_format_tool_call_deduplicates_highlights() {
    let mut shown = Vec::new();
    let r1 = format_tool_call(
        &ToolCall { name: "Write".to_string(), path: Some("/plan/memory.yaml".to_string()), detail: None },
        Some(LlmPhase::Reflect),
        &mut shown,
    );
    assert!(r1.persist);

    let r2 = format_tool_call(
        &ToolCall { name: "Edit".to_string(), path: Some("/plan/memory.yaml".to_string()), detail: None },
        Some(LlmPhase::Reflect),
        &mut shown,
    );
    assert!(!r2.persist);
    assert!(r2.is_empty());
}

#[test]
fn format_tool_call_highlights_ravel_state_session_log_set_latest() {
    let mut shown = Vec::new();
    let result = format_tool_call(
        &ToolCall {
            name: "Bash".to_string(),
            path: None,
            detail: Some("ravel-lite state session-log set-latest LLM_STATE/core --body-file /tmp/abc".to_string()),
        },
        Some(LlmPhase::AnalyseWork),
        &mut shown,
    );
    assert!(result.persist, "label must persist");
    assert!(flat_text(&result.lines[0]).contains("Writing session log"));
}

#[test]
fn format_tool_call_highlights_ravel_state_memory_add() {
    let mut shown = Vec::new();
    let result = format_tool_call(
        &ToolCall {
            name: "Bash".to_string(),
            path: None,
            detail: Some("ravel-lite state memory add LLM_STATE/core --id foo --body-file /tmp/x".to_string()),
        },
        Some(LlmPhase::Reflect),
        &mut shown,
    );
    assert!(result.persist);
    assert!(flat_text(&result.lines[0]).contains("Updating memory"));
}

#[test]
fn format_tool_call_highlights_ravel_state_backlog_set_status() {
    let mut shown = Vec::new();
    let result = format_tool_call(
        &ToolCall {
            name: "Bash".to_string(),
            path: None,
            detail: Some("ravel-lite state backlog set-status LLM_STATE/core some-task done".to_string()),
        },
        Some(LlmPhase::Triage),
        &mut shown,
    );
    assert!(result.persist);
    assert!(flat_text(&result.lines[0]).contains("Updating backlog"));
}

#[test]
fn ravel_state_target_file_extracts_subcommand_target() {
    assert_eq!(ravel_state_target_file("ravel-lite state memory add LLM_STATE/core"), Some(MEMORY_FILENAME));
    assert_eq!(ravel_state_target_file("ravel-lite state backlog set-status x done"), Some(BACKLOG_FILENAME));
    assert_eq!(
        ravel_state_target_file("ravel-lite state session-log set-latest x"),
        Some(LATEST_SESSION_FILENAME)
    );
    assert_eq!(ravel_state_target_file("ravel-lite state phase-summary render x"), None);
    assert_eq!(ravel_state_target_file("git status"), None);
}

#[test]
fn format_format_tool_call_skips_phase_md() {
    let mut shown = Vec::new();
    let result = format_tool_call(
        &ToolCall { name: "Write".to_string(), path: Some("/plan/phase.md".to_string()), detail: None },
        Some(LlmPhase::Reflect),
        &mut shown,
    );
    assert!(result.is_empty());
}

#[test]
fn format_tool_call_regular_is_single_dim_span() {
    let mut shown = Vec::new();
    let result = format_tool_call(
        &ToolCall { name: "Read".to_string(), path: Some("/foo.md".to_string()), detail: None },
        Some(LlmPhase::Work),
        &mut shown,
    );
    assert!(!result.persist);
    assert_eq!(result.lines.len(), 1);
    assert_eq!(result.lines[0].0.len(), 1);
    assert_eq!(result.lines[0].0[0].style, Style::dim());
    assert!(result.lines[0].0[0].text.contains("Read /foo.md"));
    assert!(!result.lines[0].0[0].text.contains('\x1b'));
}

#[test]
fn format_format_result_text_recognises_action_markers() {
    let lines = format_result_text("[NEW] Fresh entry — description\n[OBSOLETE] Old entry — no longer relevant");
    let text = flat_text_all(&lines);
    assert!(text.contains("NEW"));
    assert!(text.contains("OBSOLETE"));
    assert!(text.contains("description"));

    let new_row = lines.iter().find(|l| flat_text(l).contains("NEW")).unwrap();
    let new_tag = new_row.0.iter().find(|s| s.text.trim() == "NEW").unwrap();
    assert_eq!(new_tag.style, Style::bold_intent(Intent::Added));

    let obsolete = lines.iter().find(|l| flat_text(l).contains("OBSOLETE")).unwrap();
    let obsolete_tag = obsolete.0.iter().find(|s| s.text.trim() == "OBSOLETE").unwrap();
    assert_eq!(obsolete_tag.style, Style::bold_intent(Intent::Removed));
}

#[test]
fn format_result_text_done_is_added_intent() {
    let lines = format_result_text("[DONE] Task title — captured in memory");
    let row = lines.iter().find(|l| flat_text(l).contains("DONE")).unwrap();
    let tag = row.0.iter().find(|s| s.text.trim() == "DONE").unwrap();
    assert_eq!(tag.style, Style::bold_intent(Intent::Added));
}

#[test]
fn format_result_text_dim_action_has_no_intent() {
    let lines = format_result_text("[AWKWARD] minor tweak");
    let row = lines.iter().find(|l| flat_text(l).contains("AWKWARD")).unwrap();
    let tag = row.0.iter().find(|s| s.text.trim() == "AWKWARD").unwrap();
    assert_eq!(tag.style, Style::dim());
}

#[test]
fn format_format_result_text_filters_phase_md() {
    let lines = format_result_text("phase.md set to git-commit-reflect\n[NEW] Real content");
    let text = flat_text_all(&lines);
    assert!(!text.contains("phase.md set to"));
    assert!(text.contains("Real content"));
}

#[test]
fn format_result_text_filters_markdown_horizontal_rule() {
    let lines = format_result_text("I noticed the backlog had drifted.\n\n---\n\n[NEW] Real content");
    let text = flat_text_all(&lines);
    assert!(text.contains("noticed the backlog"), "preamble must survive");
    assert!(text.contains("Real content"), "label must survive");
    for line in &lines {
        let flat = flat_text(line);
        assert!(flat.trim() != "---", "bare `---` line must be filtered: {flat:?}");
    }
}

#[test]
fn format_result_text_filters_longer_dash_runs() {
    let lines = format_result_text("before\n----\nafter\n-----\nend");
    for line in &lines {
        let flat = flat_text(line);
        let trimmed = flat.trim();
        assert!(!trimmed.chars().all(|c| c == '-') || trimmed.is_empty(), "all-dashes line survived: {flat:?}");
    }
}

#[test]
fn format_result_text_preserves_lines_mixing_dashes_and_text() {
    let lines = format_result_text("--- foo\nfoo --- bar\n-- two dashes only");
    let text = flat_text_all(&lines);
    assert!(text.contains("--- foo"), "dashes+text must survive");
    assert!(text.contains("foo --- bar"), "dashes in middle must survive");
    assert!(text.contains("-- two dashes"), "two-dash line is not an HR and must survive");
}

#[test]
fn format_result_text_is_ansi_free() {
    let lines = format_result_text("[ADDED] entry\n★ Insight ──────────\nbody\n──────────────────");
    for line in &lines {
        for span in &line.0 {
            assert!(!span.text.contains('\x1b'), "span has ANSI: {:?}", span);
        }
    }
}

#[test]
fn format_result_text_collapses_blank_runs() {
    let lines = format_result_text("first paragraph\n\n\nsecond paragraph");
    let blanks_between: Vec<usize> =
        lines.iter().enumerate().filter(|(_, l)| l.is_blank()).map(|(i, _)| i).collect();
    for pair in blanks_between.windows(2) {
        assert!(pair[1] - pair[0] > 1, "consecutive blank lines at {pair:?}");
    }
    for line in &lines {
        let only_indent = !line.0.is_empty() && line.0.iter().all(|s| s.text.trim().is_empty());
        if only_indent {
            assert!(line.is_blank(), "indent-only line should be is_blank(): {line:?}");
        }
    }
}

#[test]
fn format_result_text_promoted_and_archived_are_recognised_actions() {
    let lines = format_result_text(
        "[PROMOTED] Handoff A — from completed task\n\
         [ARCHIVED] Handoff B — to memory.yaml, from completed task",
    );
    let promoted = lines.iter().find(|l| flat_text(l).contains("PROMOTED")).unwrap();
    let promoted_tag = promoted.0.iter().find(|s| s.text.trim() == "PROMOTED").unwrap();
    assert_eq!(promoted_tag.style, Style::bold_intent(Intent::Added));

    let archived = lines.iter().find(|l| flat_text(l).contains("ARCHIVED")).unwrap();
    let archived_tag = archived.0.iter().find(|s| s.text.trim() == "ARCHIVED").unwrap();
    assert_eq!(archived_tag.style, Style::bold_intent(Intent::Added));

    assert!(!flat_text(promoted).contains("[PROMOTED]"));
    assert!(!flat_text(archived).contains("[ARCHIVED]"));
}

#[test]
fn format_result_text_splits_title_and_reason_on_em_dash() {
    let lines = format_result_text("[NEW] Task title — reason for being new");
    let title_row = lines.iter().find(|l| flat_text(l).contains("NEW")).unwrap();
    let title_text = flat_text(title_row);
    assert!(title_text.contains("Task title"), "title on action row: {title_text:?}");
    assert!(!title_text.contains("reason for being new"), "reason must not appear on action row: {title_text:?}");
    assert!(!title_text.contains(" — "), "em-dash separator must be stripped: {title_text:?}");

    let reason_row = lines.iter().find(|l| flat_text(l).contains("reason for being new")).unwrap();
    let reason_text = flat_text(reason_row);
    let indent_width = 2 + LABEL_WIDTH + 2;
    assert!(reason_text.starts_with(&" ".repeat(indent_width)), "reason must indent to detail column: {reason_text:?}");
    let reason_span = reason_row.0.iter().find(|s| s.text.contains("reason for being new")).unwrap();
    assert_eq!(reason_span.style, Style::dim(), "reason must be dim");
}

#[test]
fn format_result_text_action_without_em_dash_stays_single_row() {
    let lines = format_result_text("[AWKWARD] minor tweak");
    let rows_with_text: Vec<_> = lines.iter().filter(|l| !l.is_blank()).collect();
    assert_eq!(rows_with_text.len(), 1, "single action row expected: {rows_with_text:?}");
    let text = flat_text(rows_with_text[0]);
    assert!(text.contains("AWKWARD"));
    assert!(text.contains("minor tweak"));
}

#[test]
fn format_result_text_splits_on_first_em_dash_only() {
    let lines = format_result_text("[STALE] entry — old behaviour — new behaviour");
    let title_row = lines.iter().find(|l| flat_text(l).contains("STALE")).unwrap();
    assert!(flat_text(title_row).contains("entry"));
    assert!(!flat_text(title_row).contains("old behaviour"));

    let reason_row = lines.iter().find(|l| flat_text(l).contains("old behaviour")).unwrap();
    let reason_text = flat_text(reason_row);
    assert!(reason_text.contains("old behaviour — new behaviour"), "inner em-dash preserved: {reason_text:?}");
}

#[test]
fn format_result_text_empty_reason_skips_reason_row() {
    let lines = format_result_text("[NEW] title — ");
    let rows_with_text: Vec<_> = lines.iter().filter(|l| !l.is_blank()).collect();
    assert_eq!(rows_with_text.len(), 1, "empty reason must not emit a row: {rows_with_text:?}");
}

#[test]
fn format_result_text_reason_row_does_not_break_arrow_continuation() {
    let lines = format_result_text("[VERBOSE] heading — what was wordy\n    → tightened form");
    let arrow_row = lines.iter().find(|l| flat_text(l).contains("tightened form")).unwrap();
    let arrow_span = arrow_row.0.iter().find(|s| s.text.contains("→")).expect("arrow span");
    assert_eq!(arrow_span.style, Style::intent(Intent::Meta));
}

#[test]
fn format_result_text_continuation_aligns_under_detail_column() {
    let input = "[AWKWARD] heading — old phrasing\n   → new phrasing";
    let lines = format_result_text(input);
    let cont_row = lines
        .iter()
        .find(|l| {
            let t = flat_text(l);
            t.contains("→") && t.contains("new phrasing")
        })
        .expect("continuation row");
    let cont_text = flat_text(cont_row);
    let indent_width = 2 + LABEL_WIDTH + 2;
    assert!(cont_text.starts_with(&" ".repeat(indent_width)), "continuation must indent to detail column: got {cont_text:?}");
    assert!(cont_text[indent_width..].starts_with("→ new phrasing"));
}

#[test]
fn format_result_text_continuation_inherits_action_intent() {
    let lines = format_result_text("[OVERLAPPING] A + B\n   → merged heading");
    let cont_row = lines.iter().find(|l| flat_text(l).contains("merged heading")).unwrap();
    let arrow_span = cont_row.0.iter().find(|s| s.text.contains("→")).expect("arrow span");
    assert_eq!(arrow_span.style, Style::intent(Intent::Meta));
}

#[test]
fn format_result_text_continuation_without_prior_action_falls_through() {
    let lines = format_result_text("just prose\n   → orphan arrow");
    let orphan = lines.iter().find(|l| flat_text(l).contains("orphan arrow")).unwrap();
    let text = flat_text(orphan);
    let indent_width = 2 + LABEL_WIDTH + 2;
    assert!(!text.starts_with(&" ".repeat(indent_width)), "orphan arrow must not be indented to detail column: {text:?}");
}

#[test]
fn format_result_text_inserts_blank_between_consecutive_actions() {
    let lines = format_result_text("[NEW] first — reason one\n[OBSOLETE] second — reason two");
    let first_idx = lines.iter().position(|l| flat_text(l).contains("first")).unwrap();
    let second_idx = lines.iter().position(|l| flat_text(l).contains("second")).unwrap();
    assert!(second_idx > first_idx + 2, "second action immediately follows first: {lines:?}");
    let between: Vec<_> = lines[first_idx + 1..second_idx].iter().collect();
    assert!(between.iter().any(|l| l.is_blank()), "expected blank row between actions: {between:?}");
}

#[test]
fn format_result_text_no_blank_before_first_action() {
    let lines = format_result_text("[NEW] only action");
    let action_idx = lines.iter().position(|l| flat_text(l).contains("only action")).unwrap();
    assert_eq!(action_idx, 1, "expected leading blank then action row: {lines:?}");
}

#[test]
fn format_result_text_preserves_user_blank_between_actions() {
    let lines = format_result_text("[NEW] a\n\n[OBSOLETE] b");
    let a_idx = lines.iter().position(|l| flat_text(l).contains(" a")).unwrap();
    let b_idx = lines.iter().position(|l| flat_text(l).contains(" b")).unwrap();
    let blanks_between = lines[a_idx + 1..b_idx].iter().filter(|l| l.is_blank()).count();
    assert_eq!(blanks_between, 1, "exactly one blank between actions: {lines:?}");
}

#[test]
fn format_result_text_blank_line_breaks_continuation_association() {
    let input = "[AWKWARD] heading — old\n\n   → stray arrow";
    let lines = format_result_text(input);
    let stray = lines.iter().find(|l| flat_text(l).contains("stray")).unwrap();
    let text = flat_text(stray);
    let indent_width = 2 + LABEL_WIDTH + 2;
    assert!(!text.starts_with(&" ".repeat(indent_width)), "blank line must break continuation chain: {text:?}");
}

#[test]
fn format_result_text_pins_two_part_triage_output_shape() {
    let input = "\
Triage swept the backlog after the cycle's verification work. Two hand-offs were ripe for promotion and one task moved up after the new dependency landed.

[PROMOTED] Decompose ingest pipeline — design settled in this cycle's reflection
[ARCHIVED] Datalog cross-artifact queries — strategic but not yet concrete
[REPRIORITISED] Wire health endpoint — moved up after ingest dependency landed
[BLOCKER] Schema migration spike — extracted from Decompose ingest pipeline
[DISPATCH] child: APIAnyware-MacOS — propagate verification-tooling pattern

[DONE] Wire health endpoint
[NEW] Schema migration spike
[REPRIORITISED] Wire health endpoint
[OBSOLETE] Legacy ingest path
[STATS] 2 promoted, 1 archived, 1 dispatched";

    let lines = format_result_text(input);

    let intent_cases = [
        ("PROMOTED", Intent::Added, "design settled in this cycle's reflection"),
        ("ARCHIVED", Intent::Added, "strategic but not yet concrete"),
        ("REPRIORITISED", Intent::Changed, "moved up after ingest dependency landed"),
        ("BLOCKER", Intent::Changed, "extracted from Decompose ingest pipeline"),
        ("DISPATCH", Intent::Added, "propagate verification-tooling pattern"),
    ];
    for (label, intent, reason) in intent_cases {
        let tag_span = lines
            .iter()
            .flat_map(|l| l.0.iter())
            .find(|s| s.text.trim() == label && s.style == Style::bold_intent(intent))
            .unwrap_or_else(|| panic!("missing bold-intent tag span for {label}"));
        let _ = tag_span;
        let reason_span = lines
            .iter()
            .flat_map(|l| l.0.iter())
            .find(|s| s.text.contains(reason))
            .unwrap_or_else(|| panic!("missing reason span for {label}: {reason}"));
        assert_eq!(reason_span.style, Style::dim(), "{label}: reason span must be dim");
    }

    let structural_cases = [
        ("DONE", Some(Style::bold_intent(Intent::Added))),
        ("NEW", Some(Style::bold_intent(Intent::Added))),
        ("OBSOLETE", Some(Style::bold_intent(Intent::Removed))),
        ("STATS", Some(Style::dim())),
    ];
    for (label, expected_style) in structural_cases {
        let tag_span = lines
            .iter()
            .flat_map(|l| l.0.iter())
            .find(|s| s.text.trim() == label)
            .unwrap_or_else(|| panic!("missing structural tag span for {label}"));
        assert_eq!(Some(tag_span.style), expected_style, "{label}: tag span style mismatch");
    }

    let reprior_tag_count =
        lines.iter().flat_map(|l| l.0.iter()).filter(|s| s.text.trim() == "REPRIORITISED").count();
    assert_eq!(reprior_tag_count, 2, "REPRIORITISED should appear twice (intent + structural), got {reprior_tag_count}");

    let prose_anchor = "Two hand-offs were ripe for promotion";
    let prose_span = lines
        .iter()
        .flat_map(|l| l.0.iter())
        .find(|s| s.text.contains(prose_anchor))
        .expect("preamble prose must survive");
    assert_eq!(prose_span.style, Style::dim(), "preamble prose must render as dim");

    let last_intent_idx = lines
        .iter()
        .rposition(|l| l.0.iter().any(|s| s.text.trim() == "DISPATCH"))
        .expect("DISPATCH row");
    let first_structural_idx =
        lines.iter().position(|l| l.0.iter().any(|s| s.text.trim() == "DONE")).expect("DONE row");
    assert!(first_structural_idx > last_intent_idx, "structural half must follow intent half");
    let between_blanks = lines[last_intent_idx + 1..first_structural_idx].iter().filter(|l| l.is_blank()).count();
    assert!(between_blanks >= 1, "preamble and structural halves must be separated by ≥1 blank line, got 0");

    for line in &lines {
        for span in &line.0 {
            assert!(!span.text.contains('\x1b'), "ANSI byte leaked into rendered output: {span:?}");
        }
    }
}

#[test]
fn phase_info_labels_each_phase() {
    let info = phase_info(LlmPhase::AnalyseWork);
    assert_eq!(info.label, "ANALYSE");
    assert_eq!(info.description, "Examine git diff, write session log and commit message");
    assert_eq!(phase_info(LlmPhase::Work).label, "WORK");
}

#[test]
fn fence_and_rule_lines_do_not_change_the_rendering() {
    let with = "[ADDED] One — why\n```\n→ more\n---\n\n-----\nplain\n```";
    let without = "[ADDED] One — why\n→ more\n\nplain";
    assert_eq!(
        flat_text_all(&format_result_text(with)),
        flat_text_all(&format_result_text(without))
    );
    assert_eq!(format_result_text(with).len(), format_result_text(without).len());
}
