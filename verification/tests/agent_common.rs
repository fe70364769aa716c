use ravel_lite::agent_common::{
    build_dispatch_plan_context, malformed_warning, truncate_snippet, warning_line, STREAM_SNIPPET_BYTES,
};
use ravel_lite::format::{Intent, Style};

#[test]
fn truncate_snippet_passes_short_unchanged() {
    assert_eq!(truncate_snippet("short", STREAM_SNIPPET_BYTES), "short");
    assert_eq!(truncate_snippet("", STREAM_SNIPPET_BYTES), "");
}

#[test]
fn truncate_snippet_is_utf8_safe_at_cut_point() {
    let mut s = String::new();
    for _ in 0..50 {
        s.push_str("café ");
    }
    assert!(s.len() > STREAM_SNIPPET_BYTES);
    let truncated = truncate_snippet(&s, STREAM_SNIPPET_BYTES);
    assert!(truncated.ends_with('…'));
    assert!(truncated.len() <= STREAM_SNIPPET_BYTES + '…'.len_utf8());
}

#[test]
fn truncate_snippet_backs_off_to_a_char_boundary() {
    // "é" is two bytes: a cut at byte 2 would split it.
    assert_eq!(truncate_snippet("aé", 2), "a…");
    assert_eq!(truncate_snippet("aé", 3), "aé");
}

#[test]
fn warning_line_is_one_bold_changed_span() {
    let l = warning_line("careful".to_string());
    assert_eq!(l.0.len(), 1);
    assert_eq!(l.0[0].text, "  ⚠  careful");
    assert_eq!(l.0[0].style, Style::bold_intent(Intent::Changed));
    let m = malformed_warning("pi", "{oops");
    assert_eq!(m.0[0].text, "  ⚠  pi stream-JSON parse failed — dropping line: {oops");
}

#[test]
fn dispatch_context_uses_subtree_root_and_grandparent() {
    let ctx = build_dispatch_plan_context("/dev/proj/LLM_STATE/core", None, "/cfg".to_string()).unwrap();
    assert_eq!(ctx.plan_dir, "/dev/proj/LLM_STATE/core");
    assert_eq!(ctx.project_dir, "/dev/proj");
    assert_eq!(ctx.dev_root, "/dev/proj");
    assert_eq!(ctx.related_plans, "");
    assert_eq!(ctx.config_root, "/cfg");
    assert!(build_dispatch_plan_context("/plan", None, "/cfg".to_string()).is_err());
}
