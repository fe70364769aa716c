//! Renderer-agnostic formatting of agent tool calls and phase results.
//!
//! No ANSI codes: lines are sequences of spans, each carrying a semantic
//! `Style`. Consumers translate styles into their own primitives.

use vstd::prelude::*;

use crate::filenames::{BACKLOG_FILENAME, LATEST_SESSION_FILENAME, LEGACY_MEMORY_FILENAME, MEMORY_FILENAME};
use crate::text::{
    ends_with_cr, join, lemma_lines_no_newline, lemma_lines_of_joined, lines_read_back, chars_eq_str, chars_of, contains, contains_str, ends_with, ends_with_str, eq_ignore_ascii_case,
    eq_ignore_ascii_case_str, extend_chars, extend_str, lines, lines_of, split_whitespace, string_of,
    views, words, is_ws, is_whitespace, trim, trim_start, trim_chars, trim_start_index, ascii_upper_seq,
    to_ascii_upper, pad_right, repeat, push_repeat, all_chars, all_chars_exec, count_char,
    count_char_exec, split_once, split_once_chars, slice_chars, chars_eq,
};
use crate::regex_support::{regex_compiles, regex_is_match, regex_match};
use crate::types::LlmPhase;

verus! {

#[derive(Clone, Copy, Debug, PartialEq, Eq, Structural)]
pub enum Intent {
    /// constructive / positive delta
    Added,
    /// destructive
    Removed,
    /// modification / reprioritisation
    Changed,
    /// informational / structural
    Meta,
}

#[derive(Clone, Copy, Debug, PartialEq, Eq, Structural)]
pub struct Style {
    pub intent: Option<Intent>,
    pub dim: bool,
    pub bold: bool,
}

pub open spec fn plain_style() -> Style {
    Style { intent: None, dim: false, bold: false }
}

pub open spec fn dim_style() -> Style {
    Style { intent: None, dim: true, bold: false }
}

pub open spec fn intent_style(i: Intent) -> Style {
    Style { intent: Some(i), dim: false, bold: false }
}

pub open spec fn bold_intent_style(i: Intent) -> Style {
    Style { intent: Some(i), dim: false, bold: true }
}

impl Style {
    pub fn plain() -> (s: Style)
        ensures
            s == plain_style(),
    {
        Style { intent: None, dim: false, bold: false }
    }

    pub fn dim() -> (s: Style)
        ensures
            s == dim_style(),
    {
        Style { intent: None, dim: true, bold: false }
    }

    pub fn intent(i: Intent) -> (s: Style)
        ensures
            s == intent_style(i),
    {
        Style { intent: Some(i), dim: false, bold: false }
    }

    pub fn bold_intent(i: Intent) -> (s: Style)
        ensures
            s == bold_intent_style(i),
    {
        Style { intent: Some(i), dim: false, bold: true }
    }
}

impl Default for Style {
    fn default() -> (s: Style)
        ensures
            s == plain_style(),
    {
        Style::plain()
    }
}

/// A run of text with one style.
#[derive(Clone, Debug, PartialEq, Eq)]
pub struct Span {
    pub text: String,
    pub style: Style,
}

/// The abstract content of a span: its characters and style.
pub type SpanV = (Seq<char>, Style);

/// The abstract content of a line: its spans.
pub type LineV = Seq<SpanV>;

impl View for Span {
    type V = SpanV;

    open spec fn view(&self) -> SpanV {
        (self.text@, self.style)
    }
}

impl Span {
    pub fn plain(text: String) -> (s: Span)
        ensures
            s@ == (text@, plain_style()),
    {
        Span { text, style: Style::plain() }
    }

    pub fn dim(text: String) -> (s: Span)
        ensures
            s@ == (text@, dim_style()),
    {
        Span { text, style: Style::dim() }
    }

    pub fn styled(text: String, style: Style) -> (s: Span)
        ensures
            s@ == (text@, style),
    {
        Span { text, style }
    }
}

/// One rendered line: a sequence of spans.
#[derive(Clone, Debug, PartialEq, Eq)]
pub struct StyledLine(pub Vec<Span>);

impl View for StyledLine {
    type V = LineV;

    open spec fn view(&self) -> LineV {
        self.0@.map_values(|s: Span| s@)
    }
}

/// A line is blank when every span's text is empty.
pub open spec fn line_is_blank(l: LineV) -> bool {
    forall|i: int| 0 <= i < l.len() ==> l[i].0.len() == 0
}

/// The abstract content of a list of lines.
pub open spec fn lines_view(v: Seq<StyledLine>) -> Seq<LineV> {
    v.map_values(|l: StyledLine| l@)
}

impl StyledLine {
    pub fn empty() -> (l: StyledLine)
        ensures
            l@ == Seq::<SpanV>::empty(),
    {
        let l = StyledLine(Vec::new());
        assert(l@ =~= Seq::<SpanV>::empty());
        l
    }

    pub fn plain(text: String) -> (l: StyledLine)
        ensures
            l@ == seq![(text@, plain_style())],
    {
        let mut v: Vec<Span> = Vec::new();
        v.push(Span::plain(text));
        let l = StyledLine(v);
        assert(l@ =~= seq![(text@, plain_style())]);
        l
    }

    pub fn is_blank(&self) -> (r: bool)
        ensures
            r == line_is_blank(self@),
    {
        let mut i: usize = 0;
        while i < self.0.len()
            invariant
                i <= self.0.len(),
                forall|j: int| 0 <= j < i ==> self@[j].0.len() == 0,
            decreases self.0.len() - i,
        {
            if self.0[i].text.as_str().is_empty() == false {
                assert(self@[i as int].0.len() != 0);
                return false;
            }
            i += 1;
        }
        true
    }
}

/// Formatted output from tool call or result parsing.
pub struct FormattedOutput {
    pub lines: Vec<StyledLine>,
    pub persist: bool,
}

impl FormattedOutput {
    pub fn empty() -> (f: FormattedOutput)
        ensures
            lines_view(f.lines@) == Seq::<LineV>::empty(),
            !f.persist,
    {
        let f = FormattedOutput { lines: Vec::new(), persist: false };
        assert(lines_view(f.lines@) =~= Seq::<LineV>::empty());
        f
    }

    pub fn is_empty(&self) -> (r: bool)
        ensures
            r == forall|i: int| 0 <= i < self.lines@.len() ==> line_is_blank(#[trigger] self.lines@[i]@),
    {
        let mut i: usize = 0;
        while i < self.lines.len()
            invariant
                i <= self.lines.len(),
                forall|j: int| 0 <= j < i ==> line_is_blank(#[trigger] self.lines@[j]@),
            decreases self.lines.len() - i,
        {
            if !self.lines[i].is_blank() {
                return false;
            }
            i += 1;
        }
        true
    }
}

/// A tool call to format for display.
pub struct ToolCall {
    pub name: String,
    pub path: Option<String>,
    pub detail: Option<String>,
}

/// Banner label and one-line description of an LLM phase.
pub struct PhaseInfo {
    pub label: &'static str,
    pub description: &'static str,
}

pub open spec fn phase_label(p: LlmPhase) -> Seq<char> {
    match p {
        LlmPhase::Work => "WORK"@,
        LlmPhase::AnalyseWork => "ANALYSE"@,
        LlmPhase::Reflect => "REFLECT"@,
        LlmPhase::Dream => "DREAM"@,
        LlmPhase::Triage => "TRIAGE"@,
    }
}

pub open spec fn phase_description(p: LlmPhase) -> Seq<char> {
    match p {
        LlmPhase::Work => "Pick a task, implement it, record results"@,
        LlmPhase::AnalyseWork => "Examine git diff, write session log and commit message"@,
        LlmPhase::Reflect => "Distil session learnings into durable memory"@,
        LlmPhase::Dream => "Rewrite memory losslessly in tighter form"@,
        LlmPhase::Triage => "Reprioritise backlog, propagate to related plans"@,
    }
}

pub fn phase_info(phase: LlmPhase) -> (info: PhaseInfo)
    ensures
        info.label@ == phase_label(phase),
        info.description@ == phase_description(phase),
{
    match phase {
        LlmPhase::Work => PhaseInfo {
            label: "WORK",
            description: "Pick a task, implement it, record results",
        },
        LlmPhase::AnalyseWork => PhaseInfo {
            label: "ANALYSE",
            description: "Examine git diff, write session log and commit message",
        },
        LlmPhase::Reflect => PhaseInfo {
            label: "REFLECT",
            description: "Distil session learnings into durable memory",
        },
        LlmPhase::Dream => PhaseInfo {
            label: "DREAM",
            description: "Rewrite memory losslessly in tighter form",
        },
        LlmPhase::Triage => PhaseInfo {
            label: "TRIAGE",
            description: "Reprioritise backlog, propagate to related plans",
        },
    }
}

/// The plan file a `ravel-lite state <group>` subcommand writes.
pub open spec fn state_group_target(group: Seq<char>) -> Option<Seq<char>> {
    if group == "session-log"@ {
        Some(LATEST_SESSION_FILENAME@)
    } else if group == "memory"@ {
        Some(MEMORY_FILENAME@)
    } else if group == "backlog"@ {
        Some(BACKLOG_FILENAME@)
    } else {
        None
    }
}

/// Scan of the word list as `ravel_state_target_file` performs it: a
/// `ravel-lite` word consumes the following word, which must be `state`
/// for the third word to be examined.
pub open spec fn state_target_in_words(ws: Seq<Seq<char>>) -> Option<Seq<char>>
    decreases ws.len(),
{
    if ws.len() == 0 {
        None
    } else if ws[0] == "ravel-lite"@ {
        if ws.len() >= 2 && ws[1] == "state"@ {
            if ws.len() >= 3 {
                state_group_target(ws[2])
            } else {
                None
            }
        } else if ws.len() >= 2 {
            state_target_in_words(ws.skip(2))
        } else {
            None
        }
    } else {
        state_target_in_words(ws.drop_first())
    }
}

/// The plan file that a `ravel-lite state` invocation in `detail` writes.
pub open spec fn state_target_file(detail: Seq<char>) -> Option<Seq<char>> {
    state_target_in_words(words(detail))
}

/// Infer the on-disk file a `ravel-lite state` mutation will write to,
/// from a Bash tool-call's `detail` text: `ravel-lite state session-log`,
/// `memory` and `backlog` write the session, memory and backlog files.
pub fn ravel_state_target_file(detail: &str) -> (r: Option<&'static str>)
    ensures
        match r {
            Some(f) => state_target_file(detail@) == Some(f@),
            None => state_target_file(detail@) is None,
        },
{
    let dv = chars_of(detail);
    let ws = split_whitespace(&dv);
    let mut i: usize = 0;
    assert(views(ws@).skip(0) =~= views(ws@));
    while i < ws.len()
        invariant
            i <= ws.len(),
            state_target_in_words(views(ws@).skip(i as int)) == state_target_file(detail@),
            views(ws@) == words(dv@),
            dv@ == detail@,
        decreases ws.len() - i,
    {
        let ghost rest = views(ws@).skip(i as int);
        if chars_eq_str(&ws[i], "ravel-lite") {
            if i + 1 < ws.len() && chars_eq_str(&ws[i + 1], "state") {
                if i + 2 < ws.len() {
                    let g = &ws[i + 2];
                    if chars_eq_str(g, "session-log") {
                        return Some(LATEST_SESSION_FILENAME);
                    } else if chars_eq_str(g, "memory") {
                        return Some(MEMORY_FILENAME);
                    } else if chars_eq_str(g, "backlog") {
                        return Some(BACKLOG_FILENAME);
                    } else {
                        return None;
                    }
                } else {
                    return None;
                }
            } else if i + 1 < ws.len() {
                assert(rest.skip(2) =~= views(ws@).skip(i + 2));
                i += 2;
            } else {
                return None;
            }
        } else {
            assert(rest.drop_first() =~= views(ws@).skip(i + 1));
            i += 1;
        }
    }
    None
}


/// Highlight rules per phase: `(file-name suffix, label)`, checked in order.
pub open spec fn highlight_rules(p: LlmPhase) -> Seq<(Seq<char>, Seq<char>)> {
    match p {
        LlmPhase::AnalyseWork => seq![
            (LATEST_SESSION_FILENAME@, "Writing session log"@),
            ("commits.yaml"@, "Writing commit spec"@),
        ],
        LlmPhase::Reflect => seq![
            (MEMORY_FILENAME@, "Updating memory"@),
            (LEGACY_MEMORY_FILENAME@, "Updating memory"@),
        ],
        LlmPhase::Dream => seq![(MEMORY_FILENAME@, "Rewriting memory"@)],
        LlmPhase::Triage => seq![
            (BACKLOG_FILENAME@, "Updating backlog"@),
            ("subagent-dispatch.yaml"@, "Dispatching to related plans"@),
        ],
        LlmPhase::Work => seq![],
    }
}

/// Label of the first rule whose suffix ends `path`.
pub open spec fn first_highlight(rules: Seq<(Seq<char>, Seq<char>)>, path: Seq<char>) -> Option<Seq<char>>
    decreases rules.len(),
{
    if rules.len() == 0 {
        None
    } else if ends_with(path, rules[0].0) {
        Some(rules[0].1)
    } else {
        first_highlight(rules.drop_first(), path)
    }
}

/// First line of `s` (`s.lines().next().unwrap_or("")`).
pub open spec fn first_line(s: Seq<char>) -> Seq<char> {
    if lines(s).len() > 0 {
        lines(s)[0]
    } else {
        seq![]
    }
}

/// The view of an optional string.
pub open spec fn opt_view(o: Option<String>) -> Option<Seq<char>> {
    match o {
        Some(s) => Some(s@),
        None => None,
    }
}

/// The views of a list of strings.
pub open spec fn string_views(v: Seq<String>) -> Seq<Seq<char>> {
    v.map_values(|s: String| s@)
}

/// Whether a Bash command line writes through a shell redirect.
pub open spec fn is_redirect_write(d: Seq<char>) -> bool {
    (contains(d, "cat "@) && contains(d, "> "@)) || (contains(d, "echo "@) && contains(d, "> "@))
}

/// The plain one-line rendering of a tool call.
pub open spec fn tool_call_regular(name: Seq<char>, path: Option<Seq<char>>, detail: Option<Seq<char>>) -> Seq<LineV> {
    let src = match detail {
        Some(d) => d,
        None => match path {
            Some(p) => p,
            None => seq![],
        },
    };
    seq![seq![("  ·  "@ + name + " "@ + first_line(src), dim_style())]]
}

/// What `format_tool_call` renders: the lines, the persist flag, and the
/// highlight label newly recorded as shown (if any).
pub open spec fn tool_call_render(
    name: Seq<char>,
    path: Option<Seq<char>>,
    detail: Option<Seq<char>>,
    phase: Option<LlmPhase>,
    shown: Seq<Seq<char>>,
) -> (Seq<LineV>, bool, Option<Seq<char>>) {
    let is_write = eq_ignore_ascii_case(name, "write"@) || eq_ignore_ascii_case(name, "edit"@);
    let is_bash = eq_ignore_ascii_case(name, "bash"@);
    let redirect = is_bash && detail is Some && is_redirect_write(detail->0);
    let inferred = if is_bash && detail is Some {
        state_target_file(detail->0)
    } else {
        None
    };
    let regular = (tool_call_regular(name, path, detail), false, None);
    if (is_write || redirect || inferred is Some) && phase is Some {
        let check = match path {
            Some(p) => p,
            None => match inferred {
                Some(f) => f,
                None => match detail {
                    Some(d) => d,
                    None => seq![],
                },
            },
        };
        match first_highlight(highlight_rules(phase->0), check) {
            Some(label) => if shown.contains(label) {
                (seq![], false, None)
            } else {
                (
                    seq![seq![("  "@, plain_style()), ("★  "@ + label, bold_intent_style(Intent::Added))]],
                    true,
                    Some(label),
                )
            },
            None => if contains(check, "phase.md"@) {
                (seq![], false, None)
            } else {
                regular
            },
        }
    } else {
        regular
    }
}

/// Whether the list holds a string equal to `label`.
pub fn shown_contains(shown: &Vec<String>, label: &str) -> (r: bool)
    ensures
        r == string_views(shown@).contains(label@),
{
    let lv = chars_of(label);
    let mut i: usize = 0;
    while i < shown.len()
        invariant
            i <= shown.len(),
            lv@ == label@,
            forall|j: int| 0 <= j < i ==> shown@[j]@ != label@,
        decreases shown.len() - i,
    {
        let sv = chars_of(shown[i].as_str());
        if crate::text::chars_eq(&sv, &lv) {
            assert(string_views(shown@)[i as int] == label@);
            return true;
        }
        i += 1;
    }
    assert(!string_views(shown@).contains(label@)) by {
        if string_views(shown@).contains(label@) {
            let k = choose|k: int| 0 <= k < string_views(shown@).len() && string_views(shown@)[k] == label@;
            assert(shown@[k]@ == label@);
        }
    };
    false
}

/// The first highlight label for `phase` whose file-name suffix ends `check`.
fn find_highlight(phase: LlmPhase, check: &Vec<char>) -> (r: Option<&'static str>)
    ensures
        match r {
            Some(l) => first_highlight(highlight_rules(phase), check@) == Some(l@),
            None => first_highlight(highlight_rules(phase), check@) is None,
        },
{
    let rules: Vec<(&'static str, &'static str)> = match phase {
        LlmPhase::AnalyseWork => vec![
            (LATEST_SESSION_FILENAME, "Writing session log"),
            ("commits.yaml", "Writing commit spec"),
        ],
        LlmPhase::Reflect => vec![(MEMORY_FILENAME, "Updating memory"), (LEGACY_MEMORY_FILENAME, "Updating memory")],
        LlmPhase::Dream => vec![(MEMORY_FILENAME, "Rewriting memory")],
        LlmPhase::Triage => vec![
            (BACKLOG_FILENAME, "Updating backlog"),
            ("subagent-dispatch.yaml", "Dispatching to related plans"),
        ],
        LlmPhase::Work => vec![],
    };
    let ghost rv = rules@.map_values(|r: (&'static str, &'static str)| (r.0@, r.1@));
    assert(rv =~= highlight_rules(phase));
    let mut i: usize = 0;
    assert(rv.skip(0) =~= rv);
    while i < rules.len()
        invariant
            i <= rules.len(),
            rv == rules@.map_values(|r: (&'static str, &'static str)| (r.0@, r.1@)),
            first_highlight(rv.skip(i as int), check@) == first_highlight(highlight_rules(phase), check@),
        decreases rules.len() - i,
    {
        let (suffix, label) = rules[i];
        if ends_with_str(check, suffix) {
            return Some(label);
        }
        assert(rv.skip(i as int).drop_first() =~= rv.skip(i + 1));
        i += 1;
    }
    None
}

/// The line a highlight with `label` renders as.
pub open spec fn star_line(label: Seq<char>) -> Seq<LineV> {
    seq![seq![("  "@, plain_style()), ("★  "@ + label, bold_intent_style(Intent::Added))]]
}

/// A write or edit of a plan file a phase is meant to produce is
/// highlighted, once: memory in reflect ("Updating memory") and dream
/// ("Rewriting memory"), the backlog in triage ("Updating backlog"), the
/// session record in analyse-work ("Writing session log"); the work phase
/// highlights nothing.
pub proof fn phase_file_writes_are_highlighted(
    name: Seq<char>,
    p: Seq<char>,
    detail: Option<Seq<char>>,
    shown: Seq<Seq<char>>,
)
    requires
        eq_ignore_ascii_case(name, "write"@) || eq_ignore_ascii_case(name, "edit"@),
    ensures
        ends_with(p, "memory.yaml"@) && !shown.contains("Rewriting memory"@) ==> tool_call_render(
            name,
            Some(p),
            detail,
            Some(LlmPhase::Dream),
            shown,
        ) == (star_line("Rewriting memory"@), true, Some("Rewriting memory"@)),
        ends_with(p, "memory.yaml"@) && !shown.contains("Updating memory"@) ==> tool_call_render(
            name,
            Some(p),
            detail,
            Some(LlmPhase::Reflect),
            shown,
        ) == (star_line("Updating memory"@), true, Some("Updating memory"@)),
        ends_with(p, "backlog.yaml"@) && !shown.contains("Updating backlog"@) ==> tool_call_render(
            name,
            Some(p),
            detail,
            Some(LlmPhase::Triage),
            shown,
        ) == (star_line("Updating backlog"@), true, Some("Updating backlog"@)),
        ends_with(p, "latest-session.yaml"@) && !shown.contains("Writing session log"@) ==> tool_call_render(
            name,
            Some(p),
            detail,
            Some(LlmPhase::AnalyseWork),
            shown,
        ) == (star_line("Writing session log"@), true, Some("Writing session log"@)),
        !tool_call_render(name, Some(p), detail, Some(LlmPhase::Work), shown).1,
{
    assert(MEMORY_FILENAME@ == "memory.yaml"@);
    assert(BACKLOG_FILENAME@ == "backlog.yaml"@);
    assert(LATEST_SESSION_FILENAME@ == "latest-session.yaml"@);
}

/// A highlight is shown once per phase: a call persists exactly when it
/// records a label, that label was not shown before and renders as the
/// highlight line, and the same call once the label is recorded renders
/// nothing, persists nothing and records nothing.
pub proof fn highlights_show_once(
    name: Seq<char>,
    path: Option<Seq<char>>,
    detail: Option<Seq<char>>,
    phase: Option<LlmPhase>,
    shown: Seq<Seq<char>>,
)
    ensures
        ({
            let r = tool_call_render(name, path, detail, phase, shown);
            &&& (r.1 <==> r.2 is Some)
            &&& (r.2 matches Some(l) ==> !shown.contains(l) && r.0 == seq![
                seq![("  "@, plain_style()), ("★  "@ + l, bold_intent_style(Intent::Added))],
            ])
            &&& (r.2 matches Some(l) ==> {
                let again = tool_call_render(name, path, detail, phase, shown.push(l));
                &&& again.0 == Seq::<LineV>::empty()
                &&& !again.1
                &&& again.2 is None
            })
        }),
{
    let r = tool_call_render(name, path, detail, phase, shown);
    if let Some(l) = r.2 {
        assert(shown.push(l)[shown.len() as int] == l);
        assert(shown.push(l).contains(l));
    }
}

/// Format a tool call for display. Highlight matches persist and are
/// recorded in `shown_highlights`, which tracks the labels already emitted
/// this phase; a repeated highlight renders nothing.
///
/// Tool names are compared ignoring ASCII case: no non-ASCII character
/// lower-cases into the letters of `write`, `edit` or `bash`.
pub fn format_tool_call(
    tool: &ToolCall,
    phase: Option<LlmPhase>,
    shown_highlights: &mut Vec<String>,
) -> (out: FormattedOutput)
    ensures
        ({
            let r = tool_call_render(
                tool.name@,
                opt_view(tool.path),
                opt_view(tool.detail),
                phase,
                string_views(old(shown_highlights)@),
            );
            &&& lines_view(out.lines@) == r.0
            &&& out.persist == r.1
            &&& string_views(final(shown_highlights)@) == match r.2 {
                Some(l) => string_views(old(shown_highlights)@).push(l),
                None => string_views(old(shown_highlights)@),
            }
        }),
{
    let ghost path_v = opt_view(tool.path);
    let ghost detail_v = opt_view(tool.detail);
    let ghost r = tool_call_render(tool.name@, path_v, detail_v, phase, string_views(shown_highlights@));
    let name = chars_of(tool.name.as_str());
    let is_write = eq_ignore_ascii_case_str(&name, "write") || eq_ignore_ascii_case_str(&name, "edit");
    let is_bash = eq_ignore_ascii_case_str(&name, "bash");
    let detail: Option<Vec<char>> = match &tool.detail {
        Some(d) => Some(chars_of(d.as_str())),
        None => None,
    };
    let path: Option<Vec<char>> = match &tool.path {
        Some(p) => Some(chars_of(p.as_str())),
        None => None,
    };
    let redirect = is_bash && match &detail {
        Some(d) => (contains_str(d, "cat ") && contains_str(d, "> ")) || (contains_str(d, "echo ")
            && contains_str(d, "> ")),
        None => false,
    };
    let inferred: Option<&'static str> = if is_bash {
        match &tool.detail {
            Some(d) => ravel_state_target_file(d.as_str()),
            None => None,
        }
    } else {
        None
    };
    if is_write || redirect || inferred.is_some() {
        if let Some(ph) = phase {
            let check: Vec<char> = match &path {
                Some(p) => crate::text::copy_chars(p),
                None => match inferred {
                    Some(f) => chars_of(f),
                    None => match &detail {
                        Some(d) => crate::text::copy_chars(d),
                        None => Vec::new(),
                    },
                },
            };
            match find_highlight(ph, &check) {
                Some(label) => {
                    if shown_contains(shown_highlights, label) {
                        return FormattedOutput::empty();
                    }
                    let mut owned = String::new();
                    crate::text::push_str(&mut owned, label);
                    shown_highlights.push(owned);
                    assert(string_views(shown_highlights@) =~= string_views(old(shown_highlights)@).push(label@));
                    let mut text: Vec<char> = Vec::new();
                    extend_str(&mut text, "★  ");
                    extend_str(&mut text, label);
                    let mut spans: Vec<Span> = Vec::new();
                    spans.push(Span::plain(string_of(&vec!['\u{20}', '\u{20}'])));
                    spans.push(Span::styled(string_of(&text), Style::bold_intent(Intent::Added)));
                    let line = StyledLine(spans);
                    let mut lines: Vec<StyledLine> = Vec::new();
                    lines.push(line);
                    proof {
                        reveal_strlit("  ");
                        assert(seq!['\u{20}', '\u{20}'] =~= "  "@);
                        assert(line@ =~= seq![("  "@, plain_style()), ("★  "@ + label@, bold_intent_style(Intent::Added))]);
                        assert(lines_view(lines@) =~= seq![line@]);
                    }
                    return FormattedOutput { lines, persist: true };
                },
                None => {
                    if contains_str(&check, "phase.md") {
                        return FormattedOutput::empty();
                    }
                },
            }
        }
    }
    let src: Vec<char> = match &detail {
        Some(d) => crate::text::copy_chars(d),
        None => match &path {
            Some(p) => crate::text::copy_chars(p),
            None => Vec::new(),
        },
    };
    let ls = lines_of(&src);
    let mut text: Vec<char> = Vec::new();
    extend_str(&mut text, "  ·  ");
    extend_chars(&mut text, &name);
    extend_str(&mut text, " ");
    if ls.len() > 0 {
        extend_chars(&mut text, &ls[0]);
    }
    let mut spans: Vec<Span> = Vec::new();
    spans.push(Span::dim(string_of(&text)));
    let line = StyledLine(spans);
    let mut lines: Vec<StyledLine> = Vec::new();
    lines.push(line);
    proof {
        assert(line@ =~= seq![(text@, dim_style())]);
        assert(lines_view(lines@) =~= seq![line@]);
        assert(views(ls@).len() == ls@.len());
        if ls.len() > 0 {
            assert(views(ls@)[0] == ls@[0]@);
        }
    }
    FormattedOutput { lines, persist: false }
}


/// Width every action tag is padded to: the longest tag, `REPRIORITISED`.
pub const LABEL_WIDTH: usize = 13;

/// Column at which action details, reasons and continuations start.
pub open spec fn detail_indent() -> Seq<char> {
    repeat(' ', (2 + LABEL_WIDTH + 2) as nat)
}

/// Intent per action tag. Labels describe the *state* that caused the
/// change. `Some(None)` is a recognised tag rendered neutral/dim; `None`
/// means the tag is not an action.
pub open spec fn action_intent(tag: Seq<char>) -> Option<Option<Intent>> {
    if tag == "NEW"@ {
        Some(Some(Intent::Added))
    } else if tag == "IMPRECISE"@ {
        Some(Some(Intent::Meta))
    } else if tag == "STALE"@ {
        Some(Some(Intent::Changed))
    } else if tag == "OBSOLETE"@ {
        Some(Some(Intent::Removed))
    } else if tag == "OVERLAPPING"@ {
        Some(Some(Intent::Meta))
    } else if tag == "VERBOSE"@ {
        Some(Some(Intent::Meta))
    } else if tag == "AWKWARD"@ {
        Some(None)
    } else if tag == "STATS"@ {
        Some(None)
    } else if tag == "DONE"@ {
        Some(Some(Intent::Added))
    } else if tag == "PROMOTED"@ {
        Some(Some(Intent::Added))
    } else if tag == "ARCHIVED"@ {
        Some(Some(Intent::Added))
    } else if tag == "BLOCKER"@ {
        Some(Some(Intent::Changed))
    } else if tag == "REPRIORITISED"@ {
        Some(Some(Intent::Changed))
    } else if tag == "DISPATCH"@ {
        Some(Some(Intent::Added))
    } else if tag == "NO DISPATCH"@ {
        Some(None)
    } else {
        None
    }
}

/// Executable `action_intent`.
pub fn action_intent_exec(tag: &Vec<char>) -> (r: Option<Option<Intent>>)
    ensures
        r == action_intent(tag@),
{
    if chars_eq_str(tag, "NEW") {
        Some(Some(Intent::Added))
    } else if chars_eq_str(tag, "IMPRECISE") {
        Some(Some(Intent::Meta))
    } else if chars_eq_str(tag, "STALE") {
        Some(Some(Intent::Changed))
    } else if chars_eq_str(tag, "OBSOLETE") {
        Some(Some(Intent::Removed))
    } else if chars_eq_str(tag, "OVERLAPPING") {
        Some(Some(Intent::Meta))
    } else if chars_eq_str(tag, "VERBOSE") {
        Some(Some(Intent::Meta))
    } else if chars_eq_str(tag, "AWKWARD") {
        Some(None)
    } else if chars_eq_str(tag, "STATS") {
        Some(None)
    } else if chars_eq_str(tag, "DONE") {
        Some(Some(Intent::Added))
    } else if chars_eq_str(tag, "PROMOTED") {
        Some(Some(Intent::Added))
    } else if chars_eq_str(tag, "ARCHIVED") {
        Some(Some(Intent::Added))
    } else if chars_eq_str(tag, "BLOCKER") {
        Some(Some(Intent::Changed))
    } else if chars_eq_str(tag, "REPRIORITISED") {
        Some(Some(Intent::Changed))
    } else if chars_eq_str(tag, "DISPATCH") {
        Some(Some(Intent::Added))
    } else if chars_eq_str(tag, "NO DISPATCH") {
        Some(None)
    } else {
        None
    }
}

/// Characters allowed before an action marker's `[` (`[\s\-\*]`).
pub open spec fn is_marker_lead(c: char) -> bool {
    is_ws(c) || c == '-' || c == '*'
}

/// Characters allowed in an action tag (`[A-Za-z ]`).
pub open spec fn is_tag_char(c: char) -> bool {
    ('A' <= c && c <= 'Z') || ('a' <= c && c <= 'z') || c == ' '
}

/// Length of the longest prefix of `s` whose characters satisfy `p`.
pub open spec fn lead_count(s: Seq<char>, p: spec_fn(char) -> bool) -> nat
    decreases s.len(),
{
    if s.len() > 0 && p(s[0]) {
        1 + lead_count(s.drop_first(), p)
    } else {
        0
    }
}

pub proof fn lemma_lead_count(s: Seq<char>, p: spec_fn(char) -> bool, j: int)
    requires
        0 <= j <= s.len(),
        forall|i: int| 0 <= i < j ==> p(s[i]),
        j == s.len() || !p(s[j]),
    ensures
        lead_count(s, p) == j,
    decreases j,
{
    if j > 0 {
        lemma_lead_count(s.drop_first(), p, j - 1);
    }
}

/// An action marker line: `^[\s\-\*]*\[([A-Za-z ]+)\]\s*(.*)$`, as
/// `(tag, detail)`.
pub open spec fn action_match(line: Seq<char>) -> Option<(Seq<char>, Seq<char>)> {
    let k = lead_count(line, |c: char| is_marker_lead(c));
    if k < line.len() && line[k as int] == '[' {
        let rest = line.skip(k as int + 1);
        let m = lead_count(rest, |c: char| is_tag_char(c));
        if m >= 1 && m < rest.len() && rest[m as int] == ']' && !trim_start(rest.skip(m as int + 1)).contains('\n') {
            Some((rest.take(m as int), trim_start(rest.skip(m as int + 1))))
        } else {
            None
        }
    } else {
        None
    }
}

/// A continuation line: `^\s*→\s*(.*)$`, as the text after the arrow.
pub open spec fn continuation_match(line: Seq<char>) -> Option<Seq<char>> {
    let k = crate::text::lead_ws(line);
    if k < line.len() && line[k as int] == '→' && !trim_start(line.skip(k as int + 1)).contains('\n') {
        Some(trim_start(line.skip(k as int + 1)))
    } else {
        None
    }
}

/// Pattern of the phase.md status lines that result text drops.
pub const PHASE_MD_PATTERN: &'static str = "(?i)(?:^(?:`?phase\\.md`?|Phase)\\s+(?:set to|written|→))|(?:phase\\.md.*`git-commit-)|(?:wrote.*phase\\.md)";

/// Whether `line` is a phase.md status line.
pub open spec fn is_phase_md_line(line: Seq<char>) -> bool {
    regex_compiles(PHASE_MD_PATTERN@) && regex_is_match(PHASE_MD_PATTERN@, line)
}

/// Push `l`, collapsing runs of blank lines to one.
pub open spec fn push_collapse(out: Seq<LineV>, l: LineV) -> Seq<LineV> {
    if line_is_blank(l) && out.len() > 0 && line_is_blank(out.last()) {
        out
    } else {
        out.push(l)
    }
}

pub open spec fn tag_style(io: Option<Intent>) -> Style {
    match io {
        Some(i) => bold_intent_style(i),
        None => dim_style(),
    }
}

pub open spec fn detail_style(io: Option<Intent>) -> Style {
    match io {
        Some(i) => intent_style(i),
        None => dim_style(),
    }
}

/// Renderer state between input lines: emitted lines, whether an Insight
/// block is open, and the intent of the action block being continued.
pub type ResultState = (Seq<LineV>, bool, Option<Option<Intent>>);

/// One input line's effect on the rendering.
pub open spec fn result_step(st: ResultState, line: Seq<char>) -> ResultState {
    let t = trim(line);
    if is_phase_md_line(line) {
        st
    } else if t == "```"@ {
        st
    } else if t.len() >= 3 && all_chars(t, '-') {
        st
    } else if action_match(line) is Some && action_intent(ascii_upper_seq(action_match(line).unwrap().0)) is Some {
        let tag = ascii_upper_seq(action_match(line).unwrap().0);
        let detail = action_match(line).unwrap().1;
        let io = action_intent(tag)->0;
        let out1 = if st.2 is Some {
            push_collapse(st.0, seq![])
        } else {
            st.0
        };
        let (title, reason) = match split_once(detail, " — "@) {
            Some((t0, r0)) => (t0, Some(trim(r0))),
            None => (detail, None),
        };
        let out2 = push_collapse(
            out1,
            seq![
                ("  "@, plain_style()),
                (pad_right(tag, LABEL_WIDTH as nat), tag_style(io)),
                ("  "@, plain_style()),
                (title, detail_style(io)),
            ],
        );
        let out3 = match reason {
            Some(r) => if r.len() > 0 {
                push_collapse(out2, seq![(detail_indent(), plain_style()), (r, dim_style())])
            } else {
                out2
            },
            None => out2,
        };
        (out3, st.1, Some(io))
    } else if continuation_match(line) is Some && st.2 is Some {
        let rest = continuation_match(line)->0;
        (
            push_collapse(st.0, seq![(detail_indent(), plain_style()), ("→ "@ + rest, detail_style(st.2->0))]),
            st.1,
            st.2,
        )
    } else if contains(line, "★"@) && contains(line, "Insight"@) && contains(line, "─"@) {
        (push_collapse(st.0, seq![("  "@, plain_style()), ("★ Insight"@, bold_intent_style(Intent::Meta))]), true, None)
    } else if st.1 && count_char(line, '─') >= 10 {
        (st.0, false, st.2)
    } else if t.len() == 0 {
        (push_collapse(st.0, seq![]), st.1, None)
    } else {
        (push_collapse(st.0, seq![("  "@, plain_style()), (line, dim_style())]), st.1, None)
    }
}

/// The state after all of `ls`, starting from one leading blank line.
pub open spec fn result_fold(ls: Seq<Seq<char>>) -> ResultState
    decreases ls.len(),
{
    if ls.len() == 0 {
        (seq![seq![]], false, None)
    } else {
        result_step(result_fold(ls.drop_last()), ls.last())
    }
}

/// `out` without trailing blank lines, always keeping the first line.
pub open spec fn trim_trailing_blanks(out: Seq<LineV>) -> Seq<LineV>
    decreases out.len(),
{
    if out.len() > 1 && line_is_blank(out.last()) {
        trim_trailing_blanks(out.drop_last())
    } else {
        out
    }
}

/// The rendering of a headless phase's result text.
pub open spec fn result_text_lines(text: Seq<char>) -> Seq<LineV> {
    trim_trailing_blanks(result_fold(lines(text)).0)
}

/// No two adjacent lines are both blank.
pub open spec fn no_blank_runs(out: Seq<LineV>) -> bool {
    forall|i: int| 0 <= i < out.len() - 1 ==> !(line_is_blank(#[trigger] out[i]) && line_is_blank(out[i + 1]))
}

/// Shape every rendering state keeps: a leading blank line and no blank runs.
pub open spec fn well_shaped(out: Seq<LineV>) -> bool {
    out.len() >= 1 && out[0] == Seq::<SpanV>::empty() && no_blank_runs(out)
}

pub proof fn lemma_push_collapse_shape(out: Seq<LineV>, l: LineV)
    requires
        well_shaped(out),
    ensures
        well_shaped(push_collapse(out, l)),
{
    let r = push_collapse(out, l);
    if !(line_is_blank(l) && out.len() > 0 && line_is_blank(out.last())) {
        assert forall|i: int| 0 <= i < r.len() - 1 implies !(line_is_blank(#[trigger] r[i]) && line_is_blank(r[i + 1])) by {
            if i < out.len() - 1 {
                assert(r[i] == out[i] && r[i + 1] == out[i + 1]);
            }
        };
    }
}

pub proof fn lemma_step_shape(st: ResultState, line: Seq<char>)
    requires
        well_shaped(st.0),
    ensures
        well_shaped(result_step(st, line).0),
{
    let t = trim(line);
    if is_phase_md_line(line) {
    } else if t == "```"@ {
    } else if t.len() >= 3 && all_chars(t, '-') {
    } else if action_match(line) is Some && action_intent(ascii_upper_seq(action_match(line).unwrap().0)) is Some {
        let tag = ascii_upper_seq(action_match(line).unwrap().0);
        let detail = action_match(line).unwrap().1;
        let io = action_intent(tag)->0;
        let out1 = if st.2 is Some {
            push_collapse(st.0, seq![])
        } else {
            st.0
        };
        if st.2 is Some {
            lemma_push_collapse_shape(st.0, seq![]);
        }
        let (title, reason) = match split_once(detail, " — "@) {
            Some((t0, r0)) => (t0, Some(trim(r0))),
            None => (detail, None),
        };
        let l2 = seq![
            ("  "@, plain_style()),
            (pad_right(tag, LABEL_WIDTH as nat), tag_style(io)),
            ("  "@, plain_style()),
            (title, detail_style(io)),
        ];
        lemma_push_collapse_shape(out1, l2);
        let out2 = push_collapse(out1, l2);
        match reason {
            Some(r) => if r.len() > 0 {
                lemma_push_collapse_shape(out2, seq![(detail_indent(), plain_style()), (r, dim_style())]);
            },
            None => {},
        }
    } else if continuation_match(line) is Some && st.2 is Some {
        let rest = continuation_match(line)->0;
        lemma_push_collapse_shape(st.0, seq![(detail_indent(), plain_style()), ("→ "@ + rest, detail_style(st.2->0))]);
    } else if contains(line, "★"@) && contains(line, "Insight"@) && contains(line, "─"@) {
        lemma_push_collapse_shape(st.0, seq![("  "@, plain_style()), ("★ Insight"@, bold_intent_style(Intent::Meta))]);
    } else if st.1 && count_char(line, '─') >= 10 {
    } else if t.len() == 0 {
        lemma_push_collapse_shape(st.0, seq![]);
    } else {
        lemma_push_collapse_shape(st.0, seq![("  "@, plain_style()), (line, dim_style())]);
    }
}

pub proof fn lemma_fold_shape(ls: Seq<Seq<char>>)
    ensures
        well_shaped(result_fold(ls).0),
    decreases ls.len(),
{
    if ls.len() == 0 {
        let out: Seq<LineV> = seq![seq![]];
        assert(well_shaped(out));
    } else {
        lemma_fold_shape(ls.drop_last());
        lemma_step_shape(result_fold(ls.drop_last()), ls.last());
    }
}

pub proof fn lemma_trim_trailing_shape(out: Seq<LineV>)
    requires
        well_shaped(out),
    ensures
        well_shaped(trim_trailing_blanks(out)),
        trim_trailing_blanks(out).len() > 1 ==> !line_is_blank(trim_trailing_blanks(out).last()),
    decreases out.len(),
{
    if out.len() > 1 && line_is_blank(out.last()) {
        let d = out.drop_last();
        assert forall|i: int| 0 <= i < d.len() - 1 implies !(line_is_blank(#[trigger] d[i]) && line_is_blank(d[i + 1])) by {
            assert(d[i] == out[i] && d[i + 1] == out[i + 1]);
        };
        lemma_trim_trailing_shape(d);
    }
}

/// The rendering of result text always starts with one blank separator
/// line, never holds two blank lines in a row, and never ends with a blank
/// line after content.
pub proof fn result_text_shape(text: Seq<char>)
    ensures
        well_shaped(result_text_lines(text)),
        result_text_lines(text).len() > 1 ==> !line_is_blank(result_text_lines(text).last()),
{
    lemma_fold_shape(lines(text));
    lemma_trim_trailing_shape(result_fold(lines(text)).0);
}


/// A code fence or a horizontal rule (three or more `-`), trimmed.
pub open spec fn is_fence_or_rule(line: Seq<char>) -> bool {
    let t = trim(line);
    t == "```"@ || (t.len() >= 3 && all_chars(t, '-'))
}

/// `ls` without its code-fence and horizontal-rule lines, in order.
pub open spec fn without_fences(ls: Seq<Seq<char>>) -> Seq<Seq<char>>
    decreases ls.len(),
{
    if ls.len() == 0 {
        ls
    } else if is_fence_or_rule(ls.last()) {
        without_fences(ls.drop_last())
    } else {
        without_fences(ls.drop_last()).push(ls.last())
    }
}

/// Fence and rule lines leave the renderer's state as it was.
pub proof fn lemma_fold_without_fences(ls: Seq<Seq<char>>)
    ensures
        result_fold(without_fences(ls)) == result_fold(ls),
    decreases ls.len(),
{
    if ls.len() > 0 {
        lemma_fold_without_fences(ls.drop_last());
        if !is_fence_or_rule(ls.last()) {
            let w = without_fences(ls.drop_last()).push(ls.last());
            assert(w.drop_last() =~= without_fences(ls.drop_last()));
        }
    }
}

/// Dropping the code-fence and horizontal-rule lines of result text
/// changes nothing in its rendering: blank collapsing, action grouping and
/// continuation lines come out the same.
pub proof fn fences_and_rules_leave_result_text_unchanged(text: Seq<char>, text2: Seq<char>)
    requires
        lines(text2) == without_fences(lines(text)),
    ensures
        result_text_lines(text2) == result_text_lines(text),
{
    lemma_fold_without_fences(lines(text));
}

/// Dropping fence and rule lines keeps lines free of newlines.
pub proof fn lemma_without_fences_no_newline(ls: Seq<Seq<char>>)
    requires
        forall|i: int| 0 <= i < ls.len() ==> !(#[trigger] ls[i]).contains('\n'),
    ensures
        forall|i: int| 0 <= i < without_fences(ls).len() ==> !(#[trigger] without_fences(ls)[i]).contains('\n'),
    decreases ls.len(),
{
    if ls.len() > 0 {
        let d = ls.drop_last();
        assert forall|i: int| 0 <= i < d.len() implies !(#[trigger] d[i]).contains('\n') by {
            assert(d[i] == ls[i]);
        }
        lemma_without_fences_no_newline(d);
        assert(ls.last() == ls[ls.len() - 1]);
        let w = without_fences(d);
        if !is_fence_or_rule(ls.last()) {
            assert forall|i: int| 0 <= i < without_fences(ls).len() implies !(#[trigger] without_fences(
                ls,
            )[i]).contains('\n') by {
                if i < w.len() {
                    assert(without_fences(ls)[i] == w[i]);
                } else {
                    assert(without_fences(ls)[i] == ls.last());
                }
            }
        }
    }
}

/// An empty last line of result text leaves the rendering as it was.
pub proof fn lemma_empty_line_at_end(st: ResultState)
    requires
        st.0.len() >= 1,
    ensures
        trim_trailing_blanks(result_step(st, seq![]).0) == trim_trailing_blanks(st.0),
{
    let e: Seq<char> = seq![];
    assert(trim(e) =~= e);
    reveal_strlit("```");
    reveal_strlit("★");
    assert(!contains(e, "★"@)) by {
        if contains(e, "★"@) {
            let i = choose|i: int| crate::text::matches_at(e, "★"@, i);
        }
    }
    assert(action_match(e) is None);
    assert(continuation_match(e) is None);
    assert(count_char(e, '─') == 0);
    let blank: LineV = seq![];
    assert(line_is_blank(blank));
    if !is_phase_md_line(e) {
        let out = st.0;
        assert(result_step(st, e).0 == push_collapse(out, blank));
        if !(line_is_blank(out.last())) {
            let p = out.push(blank);
            assert(p.drop_last() =~= out);
            assert(p.last() == blank);
        }
    }
}

/// Dropping the code-fence and horizontal-rule lines of result text, and
/// joining the lines left with newlines, changes nothing in its
/// rendering. It holds provided no kept line but the last ends with a
/// carriage return (joining then reading back would drop that one).
pub proof fn fences_and_rules_leave_joined_result_text_unchanged(text: Seq<char>)
    requires
        forall|i: int|
            0 <= i < without_fences(lines(text)).len() - 1 ==> !ends_with_cr(#[trigger] without_fences(lines(text))[i]),
    ensures
        result_text_lines(join(without_fences(lines(text)), "\n"@)) == result_text_lines(text),
{
    reveal_strlit("\n");
    let ls = lines(text);
    let ws = without_fences(ls);
    lemma_lines_no_newline(text);
    lemma_without_fences_no_newline(ls);
    lemma_lines_of_joined(ws);
    lemma_fold_without_fences(ls);
    assert("\n"@ =~= seq!['\n']);
    let joined = join(ws, "\n"@);
    assert(lines(joined) == lines_read_back(ws));
    assert(result_text_lines(joined) == trim_trailing_blanks(result_fold(lines_read_back(ws)).0));
    assert(result_text_lines(text) == trim_trailing_blanks(result_fold(ws).0));
    if ws.len() > 0 && ws.last().len() == 0 {
        let d = ws.drop_last();
        lemma_fold_shape(d);
        assert(ws.last() =~= Seq::<char>::empty());
        assert(ws =~= d.push(seq![]));
        assert(ws.drop_last() == d);
        assert(result_fold(ws) == result_step(result_fold(d), seq![]));
        lemma_empty_line_at_end(result_fold(d));
    }
}

/// Whether the buffer holds `c`.
pub fn has_char(v: &Vec<char>, c: char) -> (r: bool)
    ensures
        r == v@.contains(c),
{
    let mut i: usize = 0;
    while i < v.len()
        invariant
            i <= v.len(),
            forall|j: int| 0 <= j < i ==> v@[j] != c,
        decreases v.len() - i,
    {
        if v[i] == c {
            assert(v@[i as int] == c);
            return true;
        }
        i += 1;
    }
    false
}

/// `trim_start` of `s.skip(lo)`, as a buffer.
fn trim_start_from(s: &Vec<char>, lo: usize) -> (r: Vec<char>)
    requires
        lo <= s.len(),
    ensures
        r@ == trim_start(s@.skip(lo as int)),
{
    let after = slice_chars(s, lo, s.len());
    assert(after@ =~= s@.skip(lo as int));
    let st = trim_start_index(&after);
    slice_chars(&after, st, after.len())
}

/// Executable `action_match`.
pub fn action_match_exec(line: &Vec<char>) -> (r: Option<(Vec<char>, Vec<char>)>)
    ensures
        match r {
            Some(p) => action_match(line@) == Some((p.0@, p.1@)),
            None => action_match(line@) is None,
        },
{
    let n = line.len();
    let mut k: usize = 0;
    while k < n && (is_whitespace(line[k]) || line[k] == '-' || line[k] == '*')
        invariant
            k <= n == line.len(),
            forall|i: int| 0 <= i < k ==> is_marker_lead(line@[i]),
        decreases n - k,
    {
        k += 1;
    }
    proof {
        lemma_lead_count(line@, |c: char| is_marker_lead(c), k as int);
    }
    if k < n && line[k] == '[' {
        let ghost rest = line@.skip(k + 1);
        let mut e: usize = k + 1;
        while e < n && (('A' <= line[e] && line[e] <= 'Z') || ('a' <= line[e] && line[e] <= 'z') || line[e] == ' ')
            invariant
                k + 1 <= e <= n == line.len(),
                forall|i: int| k + 1 <= i < e ==> is_tag_char(line@[i]),
            decreases n - e,
        {
            e += 1;
        }
        proof {
            assert forall|i: int| 0 <= i < e - (k + 1) implies is_tag_char(rest[i]) by {
                assert(rest[i] == line@[k + 1 + i]);
            };
            lemma_lead_count(rest, |c: char| is_tag_char(c), e - (k + 1));
        }
        if e > k + 1 && e < n && line[e] == ']' {
            let detail = trim_start_from(line, e + 1);
            proof {
                assert(rest.skip(e - (k + 1) + 1) =~= line@.skip(e + 1));
            }
            if has_char(&detail, '\n') {
                return None;
            }
            let tag = slice_chars(line, k + 1, e);
            assert(rest.take(e - (k + 1)) =~= tag@);
            return Some((tag, detail));
        }
        None
    } else {
        None
    }
}

/// Executable `continuation_match`.
pub fn continuation_match_exec(line: &Vec<char>) -> (r: Option<Vec<char>>)
    ensures
        match r {
            Some(v) => continuation_match(line@) == Some(v@),
            None => continuation_match(line@) is None,
        },
{
    let n = line.len();
    let mut k: usize = 0;
    while k < n && is_whitespace(line[k])
        invariant
            k <= n == line.len(),
            forall|i: int| 0 <= i < k ==> is_ws(line@[i]),
        decreases n - k,
    {
        k += 1;
    }
    proof {
        crate::text::lemma_lead_ws(line@, k as int);
    }
    if k < n && line[k] == '→' {
        let rest = trim_start_from(line, k + 1);
        if has_char(&rest, '\n') {
            return None;
        }
        Some(rest)
    } else {
        None
    }
}

/// A span holding the characters of `text`.
fn span_chars(text: &Vec<char>, style: Style) -> (s: Span)
    ensures
        s@ == (text@, style),
{
    Span::styled(string_of(text), style)
}

/// A span holding the characters of `text`.
fn span_str(text: &str, style: Style) -> (s: Span)
    ensures
        s@ == (text@, style),
{
    let mut t = String::new();
    crate::text::push_str(&mut t, text);
    Span::styled(t, style)
}

fn tag_style_exec(io: Option<Intent>) -> (s: Style)
    ensures
        s == tag_style(io),
{
    match io {
        Some(i) => Style::bold_intent(i),
        None => Style::dim(),
    }
}

fn detail_style_exec(io: Option<Intent>) -> (s: Style)
    ensures
        s == detail_style(io),
{
    match io {
        Some(i) => Style::intent(i),
        None => Style::dim(),
    }
}

/// Push `l` unless both it and the last line are blank.
pub fn push_collapse_exec(out: &mut Vec<StyledLine>, l: StyledLine)
    ensures
        lines_view(final(out)@) == push_collapse(lines_view(old(out)@), l@),
{
    if l.is_blank() && out.len() > 0 && out[out.len() - 1].is_blank() {
        return;
    }
    out.push(l);
    assert(lines_view(out@) =~= lines_view(old(out)@).push(l@));
}

fn line_of2(a: Span, b: Span) -> (l: StyledLine)
    ensures
        l@ == seq![a@, b@],
{
    let mut v: Vec<Span> = Vec::new();
    v.push(a);
    v.push(b);
    let l = StyledLine(v);
    assert(l@ =~= seq![a@, b@]);
    l
}

fn line_of4(a: Span, b: Span, c: Span, d: Span) -> (l: StyledLine)
    ensures
        l@ == seq![a@, b@, c@, d@],
{
    let mut v: Vec<Span> = Vec::new();
    v.push(a);
    v.push(b);
    v.push(c);
    v.push(d);
    let l = StyledLine(v);
    assert(l@ =~= seq![a@, b@, c@, d@]);
    l
}

fn detail_indent_exec() -> (v: Vec<char>)
    ensures
        v@ == detail_indent(),
{
    let mut v: Vec<char> = Vec::new();
    push_repeat(&mut v, ' ', 2 + LABEL_WIDTH + 2);
    assert(v@ =~= detail_indent());
    v
}

/// Applies one input line to the rendering state.
fn result_step_exec(
    out: &mut Vec<StyledLine>,
    in_insight: &mut bool,
    last: &mut Option<Option<Intent>>,
    line: &Vec<char>,
)
    ensures
        (lines_view(final(out)@), *final(in_insight), *final(last)) == result_step(
            (lines_view(old(out)@), *old(in_insight), *old(last)),
            line@,
        ),
{
    let ghost st: ResultState = (lines_view(out@), *in_insight, *last);
    let line_str = string_of(line);
    let is_md = match regex_match(PHASE_MD_PATTERN, line_str.as_str()) {
        Some(b) => b,
        None => false,
    };
    if is_md {
        return;
    }
    let t = trim_chars(line);
    if chars_eq_str(&t, "```") {
        return;
    }
    if t.len() >= 3 && all_chars_exec(&t, '-') {
        return;
    }
    let am = action_match_exec(line);
    if let Some((tag_raw, detail)) = am {
        let tag = to_ascii_upper(&tag_raw);
        if let Some(io) = action_intent_exec(&tag) {
            if last.is_some() {
                push_collapse_exec(out, StyledLine::empty());
            }
            let mut padded = crate::text::copy_chars(&tag);
            if padded.len() < LABEL_WIDTH {
                let pad = LABEL_WIDTH - padded.len();
                push_repeat(&mut padded, ' ', pad);
            }
            assert(padded@ =~= pad_right(tag@, LABEL_WIDTH as nat));
            let sep = chars_of(" — ");
            proof {
                reveal_strlit(" — ");
            }
            let (title, reason): (Vec<char>, Option<Vec<char>>) = match split_once_chars(&detail, &sep) {
                Some((t0, r0)) => (t0, Some(trim_chars(&r0))),
                None => (detail, None),
            };
            let row = line_of4(
                span_str("  ", Style::plain()),
                span_chars(&padded, tag_style_exec(io)),
                span_str("  ", Style::plain()),
                span_chars(&title, detail_style_exec(io)),
            );
            push_collapse_exec(out, row);
            if let Some(r) = reason {
                if r.len() > 0 {
                    let ind = detail_indent_exec();
                    let rrow = line_of2(span_chars(&ind, Style::plain()), span_chars(&r, Style::dim()));
                    push_collapse_exec(out, rrow);
                }
            }
            *last = Some(io);
            return;
        }
    }
    let cm = continuation_match_exec(line);
    if let Some(rest) = cm {
        if let Some(io) = *last {
            let ind = detail_indent_exec();
            let mut text: Vec<char> = Vec::new();
            extend_str(&mut text, "→ ");
            extend_chars(&mut text, &rest);
            let row = line_of2(span_chars(&ind, Style::plain()), span_chars(&text, detail_style_exec(io)));
            push_collapse_exec(out, row);
            return;
        }
    }
    if contains_str(line, "★") && contains_str(line, "Insight") && contains_str(line, "─") {
        *in_insight = true;
        *last = None;
        let row = line_of2(span_str("  ", Style::plain()), span_str("★ Insight", Style::bold_intent(Intent::Meta)));
        push_collapse_exec(out, row);
        return;
    }
    if *in_insight && count_char_exec(line, '─') >= 10 {
        *in_insight = false;
        return;
    }
    if t.len() == 0 {
        *last = None;
        push_collapse_exec(out, StyledLine::empty());
        return;
    }
    *last = None;
    let row = line_of2(span_str("  ", Style::plain()), span_chars(line, Style::dim()));
    push_collapse_exec(out, row);
}

/// Format result text from a headless phase. Recognises `[ACTION]`
/// markers, `→ …` continuations under the previous action, and Insight
/// blocks; drops phase.md status lines, code fences and horizontal rules.
pub fn format_result_text(text: &str) -> (out: Vec<StyledLine>)
    ensures
        lines_view(out@) == result_text_lines(text@),
        well_shaped(lines_view(out@)),
        lines_view(out@).len() > 1 ==> !line_is_blank(lines_view(out@).last()),
{
    let tv = chars_of(text);
    let ls = lines_of(&tv);
    let mut out: Vec<StyledLine> = Vec::new();
    out.push(StyledLine::empty());
    let mut in_insight = false;
    let mut last: Option<Option<Intent>> = None;
    let ghost lv = views(ls@);
    assert(lines_view(out@) =~= seq![Seq::<SpanV>::empty()]);
    assert(lv.take(0) =~= Seq::<Seq<char>>::empty());
    let mut i: usize = 0;
    while i < ls.len()
        invariant
            i <= ls.len(),
            lv == views(ls@),
            (lines_view(out@), in_insight, last) == result_fold(lv.take(i as int)),
        decreases ls.len() - i,
    {
        result_step_exec(&mut out, &mut in_insight, &mut last, &ls[i]);
        assert(lv.take(i + 1).drop_last() =~= lv.take(i as int));
        i += 1;
    }
    assert(lv.take(ls.len() as int) =~= lv);
    proof {
        lemma_fold_shape(lv);
    }
    let ghost folded = lines_view(out@);
    while out.len() > 1 && out[out.len() - 1].is_blank()
        invariant
            trim_trailing_blanks(lines_view(out@)) == trim_trailing_blanks(folded),
            out.len() >= 1,
        decreases out.len(),
    {
        let ghost before = lines_view(out@);
        out.pop();
        assert(lines_view(out@) =~= before.drop_last());
    }
    proof {
        result_text_shape(text@);
    }
    out
}

} // verus!
