//! Interpreting the stream-JSON events of the two CLI agents: which tool
//! call to show, which result text to render, what to ignore. The binary
//! reads each stdout line and parses it as JSON; these functions decide
//! what the line means.

use vstd::prelude::*;

use crate::agent_common::{snippet, truncate_snippet, StreamLineOutcome, STREAM_SNIPPET_BYTES};
use crate::format::{
    format_result_text, format_tool_call, intent_style, lines_view, opt_view, plain_style, result_text_lines,
    string_views, tool_call_render, FormattedOutput, Intent, LineV, Span, Style, StyledLine, ToolCall,
};
use crate::json::{get, get_str, jget, jget_str, json_of, jstr, parse_json, JsonValue};
use crate::text::{
    chars_of, extend_chars, extend_str, join, join_chars, owned, str_eq, string_of, trim, trim_chars, views,
};
use crate::tool_input::{clean_name, clean_tool_name, extract_tool_detail, tool_detail};
use crate::types::LlmPhase;

verus! {

/// A tool call by its (name, path, detail).
pub type ToolV = (Seq<char>, Option<Seq<char>>, Option<Seq<char>>);

/// What an event asks the display to do.
pub enum StreamAction {
    Ignore,
    /// Format this tool call.
    Tool(ToolV),
    /// Render this result text, persistently.
    Show(Seq<char>),
    /// Show these lines, persistently.
    Lines(Seq<LineV>),
}

/// `r` (and the highlight record going from `before` to `after`) is what
/// `action` produces in `phase`.
pub open spec fn outcome_ok(
    action: StreamAction,
    phase: Option<LlmPhase>,
    before: Seq<Seq<char>>,
    after: Seq<Seq<char>>,
    r: StreamLineOutcome,
) -> bool {
    match action {
        StreamAction::Ignore => r is Ignored && after == before,
        StreamAction::Tool(t) => {
            let x = tool_call_render(t.0, t.1, t.2, phase, before);
            &&& r matches StreamLineOutcome::Output(f) && lines_view(f.lines@) == x.0 && f.persist == x.1
            &&& after == match x.2 {
                Some(l) => before.push(l),
                None => before,
            }
        },
        StreamAction::Show(text) => {
            &&& r matches StreamLineOutcome::Output(f) && lines_view(f.lines@) == result_text_lines(text) && f.persist
            &&& after == before
        },
        StreamAction::Lines(ls) => {
            &&& r matches StreamLineOutcome::Output(f) && lines_view(f.lines@) == ls && f.persist
            &&& after == before
        },
    }
}

pub open spec fn jget_opt(v: Option<JsonValue>, key: Seq<char>) -> Option<JsonValue> {
    match v {
        Some(x) => jget(x, key),
        None => None,
    }
}

pub open spec fn or_null(v: Option<JsonValue>) -> JsonValue {
    match v {
        Some(x) => x,
        None => JsonValue::Null,
    }
}

/// At most the first `n` characters.
pub open spec fn first_chars(s: Option<Seq<char>>, n: nat) -> Option<Seq<char>> {
    match s {
        Some(t) => Some(
            if t.len() > n {
                t.take(n as int)
            } else {
                t
            },
        ),
        None => None,
    }
}

/// `"<pattern>" in <path>` for a grep call (`.` when no path is given).
pub open spec fn grep_detail(input: JsonValue) -> Seq<char> {
    "\""@ + match jget_str(input, "pattern"@) {
        Some(p) => p,
        None => seq![],
    } + "\" in "@ + match jget_str(input, "path"@) {
        Some(p) => p,
        None => "."@,
    }
}

/// A `Grep` tool call is shown as `"<pattern>" in <path>`: the input's
/// path when it gives one as a string, `.` only when it gives none. Both
/// dialects agree.
pub proof fn grep_shows_pattern_and_path(block: JsonValue, input: JsonValue, pat: Seq<char>, path: Option<Seq<char>>)
    requires
        jget_str(block, "name"@) == Some("Grep"@),
        jget(block, "input"@) == Some(input),
        jget_str(input, "pattern"@) == Some(pat),
        jget_str(input, "path"@) == path,
        path is Some || jget(input, "path"@) is None,
    ensures
        assistant_tool(block) == ("Grep"@, None::<Seq<char>>, Some("\""@ + pat + "\" in "@ + match path {
            Some(p) => p,
            None => "."@,
        })),
        pi_tool("grep"@, input) == ("grep"@, None::<Seq<char>>, Some("\""@ + pat + "\" in "@ + match path {
            Some(p) => p,
            None => "."@,
        })),
{
    reveal_strlit("Grep");
    reveal_strlit("Read");
    reveal_strlit("Write");
    reveal_strlit("Edit");
    reveal_strlit("grep");
    reveal_strlit("read");
    reveal_strlit("write");
    reveal_strlit("edit");
    if path is None {
        assert(jget_str(input, "path"@) is None);
    }
    assert("Grep"@[0] != "Read"@[0]);
    assert("Grep"@.len() != "Write"@.len());
    assert("Grep"@[0] != "Edit"@[0]);
    assert(or_null(jget(block, "input"@)) == input);
    assert(assistant_tool(block) == ("Grep"@, None::<Seq<char>>, Some(grep_detail(input))));
    assert("grep"@[0] != "read"@[0]);
    assert("grep"@.len() != "write"@.len());
    assert("grep"@[0] != "edit"@[0]);
    assert(pi_tool("grep"@, input) == ("grep"@, None::<Seq<char>>, Some(grep_detail(input))));
}

/// A file tool call (`Read`, `Write`, `Edit`) carries the input's
/// `file_path` as its path, a `Glob` call its `pattern` as detail, and a
/// `Bash` call its command, cut to its first 120 characters.
pub proof fn assistant_tools_carry_their_inputs(block: JsonValue, input: JsonValue, name: Seq<char>)
    requires
        jget_str(block, "name"@) == Some(name),
        jget(block, "input"@) == Some(input),
    ensures
        (name == "Read"@ || name == "Write"@ || name == "Edit"@) ==> assistant_tool(block) == (
            name,
            jget_str(input, "file_path"@),
            None::<Seq<char>>,
        ),
        name == "Glob"@ ==> assistant_tool(block) == (name, None::<Seq<char>>, jget_str(input, "pattern"@)),
        name == "Bash"@ ==> match jget_str(input, "command"@) {
            Some(cmd) => (assistant_tool(block).2 matches Some(c) && c.len() == (if cmd.len() > 120 {
                120
            } else {
                cmd.len()
            }) && cmd.take(c.len() as int) == c),
            None => assistant_tool(block).2 is None,
        },
{
    reveal_strlit("Grep");
    reveal_strlit("Read");
    reveal_strlit("Write");
    reveal_strlit("Edit");
    reveal_strlit("Glob");
    reveal_strlit("Bash");
    assert(or_null(jget(block, "input"@)) == input);
    if name == "Glob"@ {
        assert("Glob"@[0] != "Read"@[0] && "Glob"@.len() != "Write"@.len() && "Glob"@[0] != "Edit"@[0]);
        assert("Glob"@[1] != "Grep"@[1]);
    }
    if name == "Bash"@ {
        assert("Bash"@[0] != "Read"@[0] && "Bash"@.len() != "Write"@.len() && "Bash"@[0] != "Edit"@[0]);
        assert("Bash"@[0] != "Grep"@[0] && "Bash"@[0] != "Glob"@[0]);
        if let Some(cmd) = jget_str(input, "command"@) {
            if cmd.len() > 120 {
                assert(cmd.take(120).take(120) =~= cmd.take(120));
            } else {
                assert(cmd.take(cmd.len() as int) =~= cmd);
            }
        }
    }
}

/// The member `a` if present (whatever it holds), else `b`, as a string.
pub open spec fn str_of_either(input: JsonValue, a: Seq<char>, b: Seq<char>) -> Option<Seq<char>> {
    jstr(
        match jget(input, a) {
            Some(v) => Some(v),
            None => jget(input, b),
        },
    )
}

/// The tool call of a `tool_use` block in an `assistant` event.
pub open spec fn assistant_tool(block: JsonValue) -> ToolV {
    let name = match jget_str(block, "name"@) {
        Some(n) => n,
        None => seq![],
    };
    let input = or_null(jget(block, "input"@));
    if name == "Read"@ || name == "Write"@ || name == "Edit"@ {
        (name, jget_str(input, "file_path"@), None)
    } else if name == "Grep"@ {
        (name, None, Some(grep_detail(input)))
    } else if name == "Glob"@ {
        (name, None, jget_str(input, "pattern"@))
    } else if name == "Bash"@ {
        (name, None, first_chars(jget_str(input, "command"@), 120))
    } else {
        (clean_name(name), None, Some(tool_detail(input)))
    }
}

/// The first block whose `type` is `tool_use`.
pub open spec fn first_tool_use(blocks: Seq<JsonValue>) -> Option<JsonValue>
    decreases blocks.len(),
{
    if blocks.len() == 0 {
        None
    } else if jget_str(blocks[0], "type"@) == Some("tool_use"@) {
        Some(blocks[0])
    } else {
        first_tool_use(blocks.skip(1))
    }
}

/// What a stream-JSON event of the stream-json CLI asks for: the first
/// tool call of an `assistant` message, or the text of a `result`.
pub open spec fn assistant_action(event: JsonValue) -> StreamAction {
    match jget_str(event, "type"@) {
        None => StreamAction::Ignore,
        Some(t) => if t == "assistant"@ {
            match jget_opt(jget(event, "message"@), "content"@) {
                Some(JsonValue::Array(bs)) => match first_tool_use(bs@) {
                    Some(b) => StreamAction::Tool(assistant_tool(b)),
                    None => StreamAction::Ignore,
                },
                _ => StreamAction::Ignore,
            }
        } else if t == "result"@ {
            match jget_str(event, "result"@) {
                Some(r) => StreamAction::Show(r),
                None => StreamAction::Ignore,
            }
        } else {
            StreamAction::Ignore
        },
    }
}

fn first_chars_exec(s: &str, n: usize) -> (r: String)
    ensures
        Some(r@) == first_chars(Some(s@), n as nat),
{
    let v = chars_of(s);
    if v.len() <= n {
        return owned(s);
    }
    let mut out: Vec<char> = Vec::new();
    let mut i: usize = 0;
    while i < n
        invariant
            i <= n < v.len(),
            out@ == v@.take(i as int),
        decreases n - i,
    {
        out.push(v[i]);
        assert(out@ =~= v@.take(i + 1));
        i += 1;
    }
    string_of(&out)
}

fn opt_first_chars(s: Option<&str>, n: usize) -> (r: Option<String>)
    ensures
        opt_view(r) == first_chars(
            match s {
                Some(t) => Some(t@),
                None => None,
            },
            n as nat,
        ),
{
    match s {
        Some(t) => Some(first_chars_exec(t, n)),
        None => None,
    }
}

fn opt_owned(s: Option<&str>) -> (r: Option<String>)
    ensures
        opt_view(r) == match s {
            Some(t) => Some(t@),
            None => None,
        },
{
    match s {
        Some(t) => Some(owned(t)),
        None => None,
    }
}

fn grep_detail_exec(input: &JsonValue) -> (r: String)
    ensures
        r@ == grep_detail(*input),
{
    let mut v: Vec<char> = Vec::new();
    extend_str(&mut v, "\"");
    match get_str(input, "pattern") {
        Some(p) => extend_str(&mut v, p),
        None => {},
    }
    extend_str(&mut v, "\" in ");
    match get_str(input, "path") {
        Some(p) => extend_str(&mut v, p),
        None => extend_str(&mut v, "."),
    }
    string_of(&v)
}

fn str_of_either_exec(input: &JsonValue, a: &str, b: &str) -> (r: Option<String>)
    ensures
        opt_view(r) == str_of_either(*input, a@, b@),
{
    let m = match get(input, a) {
        Some(v) => Some(v),
        None => get(input, b),
    };
    match m {
        Some(JsonValue::Str(s)) => Some(crate::text::clone_string(s)),
        _ => None,
    }
}

fn assistant_tool_call(block: &JsonValue) -> (t: ToolCall)
    ensures
        (t.name@, opt_view(t.path), opt_view(t.detail)) == assistant_tool(*block),
{
    let null = JsonValue::Null;
    let name: &str = match get_str(block, "name") {
        Some(n) => n,
        None => "",
    };
    proof {
        reveal_strlit("");
    }
    assert(name@ == match jget_str(*block, "name"@) {
        Some(n) => n,
        None => Seq::<char>::empty(),
    });
    let input: &JsonValue = match get(block, "input") {
        Some(i) => i,
        None => &null,
    };
    assert(*input == or_null(jget(*block, "input"@)));
    if str_eq(name, "Read") || str_eq(name, "Write") || str_eq(name, "Edit") {
        ToolCall { name: owned(name), path: opt_owned(get_str(input, "file_path")), detail: None }
    } else if str_eq(name, "Grep") {
        ToolCall { name: owned(name), path: None, detail: Some(grep_detail_exec(input)) }
    } else if str_eq(name, "Glob") {
        ToolCall { name: owned(name), path: None, detail: opt_owned(get_str(input, "pattern")) }
    } else if str_eq(name, "Bash") {
        ToolCall { name: owned(name), path: None, detail: opt_first_chars(get_str(input, "command"), 120) }
    } else {
        ToolCall { name: clean_tool_name(name), path: None, detail: Some(extract_tool_detail(input)) }
    }
}

fn show_tool(t: &ToolCall, phase: Option<LlmPhase>, shown: &mut Vec<String>) -> (r: StreamLineOutcome)
    ensures
        outcome_ok(
            StreamAction::Tool((t.name@, opt_view(t.path), opt_view(t.detail))),
            phase,
            string_views(old(shown)@),
            string_views(final(shown)@),
            r,
        ),
{
    let f = format_tool_call(t, phase, shown);
    StreamLineOutcome::Output(f)
}

fn show_text(text: &str) -> (r: StreamLineOutcome)
    ensures
        r matches StreamLineOutcome::Output(f) && lines_view(f.lines@) == result_text_lines(text@) && f.persist,
{
    StreamLineOutcome::Output(FormattedOutput { lines: format_result_text(text), persist: true })
}

/// Interpret one event of the stream-json CLI's stream.
pub fn assistant_event(event: &JsonValue, phase: Option<LlmPhase>, shown: &mut Vec<String>) -> (r: StreamLineOutcome)
    ensures
        outcome_ok(assistant_action(*event), phase, string_views(old(shown)@), string_views(final(shown)@), r),
{
    let t = match get_str(event, "type") {
        Some(t) => t,
        None => return StreamLineOutcome::Ignored,
    };
    if str_eq(t, "assistant") {
        let content = match get(event, "message") {
            Some(m) => get(m, "content"),
            None => None,
        };
        match content {
            Some(JsonValue::Array(bs)) => {
                let mut i: usize = 0;
                assert(bs@.skip(0) =~= bs@);
                while i < bs.len()
                    invariant
                        i <= bs.len(),
                        first_tool_use(bs@) == first_tool_use(bs@.skip(i as int)),
                        assistant_action(*event) == match first_tool_use(bs@) {
                            Some(b) => StreamAction::Tool(assistant_tool(b)),
                            None => StreamAction::Ignore,
                        },
                        string_views(shown@) == string_views(old(shown)@),
                    decreases bs.len() - i,
                {
                    assert(bs@.skip(i as int)[0] == bs@[i as int]);
                    assert(bs@.skip(i as int).skip(1) =~= bs@.skip(i + 1));
                    let is_use = match get_str(&bs[i], "type") {
                        Some(ty) => str_eq(ty, "tool_use"),
                        None => false,
                    };
                    if is_use {
                        let tool = assistant_tool_call(&bs[i]);
                        return show_tool(&tool, phase, shown);
                    }
                    i += 1;
                }
                StreamLineOutcome::Ignored
            },
            _ => StreamLineOutcome::Ignored,
        }
    } else if str_eq(t, "result") {
        match get_str(event, "result") {
            Some(r) => show_text(r),
            None => StreamLineOutcome::Ignored,
        }
    } else {
        StreamLineOutcome::Ignored
    }
}

/// The tool call of a pi `tool_execution_start` event.
pub open spec fn pi_tool(name: Seq<char>, input: JsonValue) -> ToolV {
    if name == "read"@ || name == "write"@ || name == "edit"@ {
        (name, str_of_either(input, "file_path"@, "path"@), None)
    } else if name == "grep"@ {
        (name, None, Some(grep_detail(input)))
    } else if name == "find"@ {
        (name, None, str_of_either(input, "pattern"@, "glob"@))
    } else if name == "bash"@ {
        (name, None, first_chars(jget_str(input, "command"@), 120))
    } else {
        (clean_name(name), None, Some(tool_detail(input)))
    }
}

/// The texts of the `text` blocks of a message, in order.
pub open spec fn text_blocks(bs: Seq<JsonValue>) -> Seq<Seq<char>>
    decreases bs.len(),
{
    if bs.len() == 0 {
        seq![]
    } else {
        text_blocks(bs.drop_last()) + if jget_str(bs.last(), "type"@) == Some("text"@) && jget_str(
            bs.last(),
            "text"@,
        ) is Some {
            seq![jget_str(bs.last(), "text"@)->0]
        } else {
            seq![]
        }
    }
}

/// The line shown for a failed tool.
pub open spec fn tool_error_lines() -> Seq<LineV> {
    seq![seq![("  "@, plain_style()), ("✗  tool error"@, intent_style(Intent::Removed))]]
}

/// What a pi stream event asks for: a tool call at its start, an error
/// line when it failed, and the joined text blocks of a finished message.
pub open spec fn pi_action(event: JsonValue) -> StreamAction {
    match jget_str(event, "type"@) {
        None => StreamAction::Ignore,
        Some(t) => if t == "tool_execution_start"@ {
            match jget_str(event, "tool_name"@) {
                None => StreamAction::Ignore,
                Some(name) => StreamAction::Tool(pi_tool(name, or_null(jget(event, "tool_input"@)))),
            }
        } else if t == "tool_execution_end"@ {
            if jget(event, "isError"@) == Some(JsonValue::Bool(true)) {
                StreamAction::Lines(tool_error_lines())
            } else {
                StreamAction::Ignore
            }
        } else if t == "message_end"@ {
            match jget(event, "content"@) {
                Some(JsonValue::Array(bs)) => {
                    let text = join(text_blocks(bs@), "\n"@);
                    if text.len() > 0 {
                        StreamAction::Show(text)
                    } else {
                        StreamAction::Ignore
                    }
                },
                _ => StreamAction::Ignore,
            }
        } else {
            StreamAction::Ignore
        },
    }
}

fn pi_tool_call(name: &str, input: &JsonValue) -> (t: ToolCall)
    ensures
        (t.name@, opt_view(t.path), opt_view(t.detail)) == pi_tool(name@, *input),
{
    if str_eq(name, "read") || str_eq(name, "write") || str_eq(name, "edit") {
        ToolCall { name: owned(name), path: str_of_either_exec(input, "file_path", "path"), detail: None }
    } else if str_eq(name, "grep") {
        ToolCall { name: owned(name), path: None, detail: Some(grep_detail_exec(input)) }
    } else if str_eq(name, "find") {
        ToolCall { name: owned(name), path: None, detail: str_of_either_exec(input, "pattern", "glob") }
    } else if str_eq(name, "bash") {
        ToolCall { name: owned(name), path: None, detail: opt_first_chars(get_str(input, "command"), 120) }
    } else {
        ToolCall { name: clean_tool_name(name), path: None, detail: Some(extract_tool_detail(input)) }
    }
}

/// Interpret one event of the pi CLI's stream.
pub fn pi_event(event: &JsonValue, phase: Option<LlmPhase>, shown: &mut Vec<String>) -> (r: StreamLineOutcome)
    ensures
        outcome_ok(pi_action(*event), phase, string_views(old(shown)@), string_views(final(shown)@), r),
{
    let t = match get_str(event, "type") {
        Some(t) => t,
        None => return StreamLineOutcome::Ignored,
    };
    if str_eq(t, "tool_execution_start") {
        let name = match get_str(event, "tool_name") {
            Some(n) => n,
            None => return StreamLineOutcome::Ignored,
        };
        let null = JsonValue::Null;
        let input: &JsonValue = match get(event, "tool_input") {
            Some(i) => i,
            None => &null,
        };
        let tool = pi_tool_call(name, input);
        show_tool(&tool, phase, shown)
    } else if str_eq(t, "tool_execution_end") {
        let failed = match get(event, "isError") {
            Some(JsonValue::Bool(b)) => *b,
            _ => false,
        };
        if failed {
            let mut spans: Vec<Span> = Vec::new();
            spans.push(Span::plain(owned("  ")));
            spans.push(Span::styled(owned("✗  tool error"), Style::intent(Intent::Removed)));
            let line = StyledLine(spans);
            assert(line@ =~= tool_error_lines()[0]);
            let mut lines: Vec<StyledLine> = Vec::new();
            lines.push(line);
            assert(lines_view(lines@) =~= tool_error_lines());
            StreamLineOutcome::Output(FormattedOutput { lines, persist: true })
        } else {
            StreamLineOutcome::Ignored
        }
    } else if str_eq(t, "message_end") {
        match get(event, "content") {
            Some(JsonValue::Array(bs)) => {
                let mut texts: Vec<Vec<char>> = Vec::new();
                let mut i: usize = 0;
                while i < bs.len()
                    invariant
                        i <= bs.len(),
                        views(texts@) == text_blocks(bs@.take(i as int)),
                    decreases bs.len() - i,
                {
                    assert(bs@.take(i + 1).drop_last() =~= bs@.take(i as int));
                    assert(bs@.take(i + 1).last() == bs@[i as int]);
                    let is_text = match get_str(&bs[i], "type") {
                        Some(ty) => str_eq(ty, "text"),
                        None => false,
                    };
                    if is_text {
                        match get_str(&bs[i], "text") {
                            Some(x) => {
                                let ghost before = texts@;
                                texts.push(chars_of(x));
                                assert(views(texts@) =~= views(before).push(x@));
                            },
                            None => {},
                        }
                    }
                    i += 1;
                }
                assert(bs@.take(i as int) =~= bs@);
                let joined = join_chars(&texts, "\n");
                if joined.len() > 0 {
                    let s = string_of(&joined);
                    show_text(s.as_str())
                } else {
                    StreamLineOutcome::Ignored
                }
            },
            _ => StreamLineOutcome::Ignored,
        }
    } else {
        StreamLineOutcome::Ignored
    }
}

/// Which agent's stream a line comes from.
#[derive(Debug, Clone, Copy, PartialEq, Eq)]
pub enum StreamDialect {
    /// `--output-format stream-json` events (`assistant`, `result`).
    Assistant,
    /// pi `--mode json` events (`tool_execution_*`, `message_end`).
    Pi,
}

pub open spec fn dialect_action(d: StreamDialect, event: JsonValue) -> StreamAction {
    match d {
        StreamDialect::Assistant => assistant_action(event),
        StreamDialect::Pi => pi_action(event),
    }
}

/// Interpret one stdout line. `parsed` is the line, trimmed, read as
/// JSON (`None` when it is not JSON). A blank line is ignored; a line that
/// is not JSON is kept as a snippet of at most `STREAM_SNIPPET_BYTES`.
fn interpret_stream_line(
    dialect: StreamDialect,
    line: &str,
    parsed: Option<JsonValue>,
    phase: Option<LlmPhase>,
    shown: &mut Vec<String>,
) -> (r: StreamLineOutcome)
    ensures
        trim(line@).len() == 0 ==> (r is Ignored && final(shown)@ == old(shown)@),
        trim(line@).len() > 0 && parsed is None ==> (r matches StreamLineOutcome::Malformed { snippet: s } && s@
            == snippet(trim(line@), STREAM_SNIPPET_BYTES as nat) && final(shown)@ == old(shown)@),
        trim(line@).len() > 0 && parsed is Some ==> outcome_ok(
            dialect_action(dialect, parsed->0),
            phase,
            string_views(old(shown)@),
            string_views(final(shown)@),
            r,
        ),
{
    let lv = chars_of(line);
    let t = trim_chars(&lv);
    if t.len() == 0 {
        return StreamLineOutcome::Ignored;
    }
    match parsed {
        None => {
            let ts = string_of(&t);
            StreamLineOutcome::Malformed { snippet: truncate_snippet(ts.as_str(), STREAM_SNIPPET_BYTES) }
        },
        Some(event) => match dialect {
            StreamDialect::Assistant => assistant_event(&event, phase, shown),
            StreamDialect::Pi => pi_event(&event, phase, shown),
        },
    }
}


/// Read one stdout line of an agent in `dialect`: a blank line is
/// ignored, a line that is not JSON (after trimming) is kept as a snippet,
/// and an event is interpreted.
pub fn read_stream_line(dialect: StreamDialect, line: &str, phase: Option<LlmPhase>, shown: &mut Vec<String>) -> (r:
    StreamLineOutcome)
    ensures
        trim(line@).len() == 0 ==> (r is Ignored && final(shown)@ == old(shown)@),
        trim(line@).len() > 0 && json_of(trim(line@)) is Err ==> (r matches StreamLineOutcome::Malformed {
            snippet: s,
        } && s@ == snippet(trim(line@), STREAM_SNIPPET_BYTES as nat) && final(shown)@ == old(shown)@),
        trim(line@).len() > 0 && json_of(trim(line@)) is Ok ==> outcome_ok(
            dialect_action(dialect, json_of(trim(line@))->Ok_0),
            phase,
            string_views(old(shown)@),
            string_views(final(shown)@),
            r,
        ),
{
    let lv = chars_of(line);
    let t = trim_chars(&lv);
    let parsed = if t.len() == 0 {
        None
    } else {
        let ts = string_of(&t);
        match parse_json(ts.as_str()) {
            Ok(v) => Some(v),
            Err(_) => None,
        }
    };
    interpret_stream_line(dialect, line, parsed, phase, shown)
}

/// Read one line of `--output-format stream-json` output.
pub fn parse_stream_line(line: &str, phase: Option<LlmPhase>, shown: &mut Vec<String>) -> (r: StreamLineOutcome)
    ensures
        trim(line@).len() == 0 ==> (r is Ignored && final(shown)@ == old(shown)@),
        trim(line@).len() > 0 && json_of(trim(line@)) is Err ==> (r matches StreamLineOutcome::Malformed {
            snippet: s,
        } && s@ == snippet(trim(line@), STREAM_SNIPPET_BYTES as nat) && final(shown)@ == old(shown)@),
        trim(line@).len() > 0 && json_of(trim(line@)) is Ok ==> outcome_ok(
            assistant_action(json_of(trim(line@))->Ok_0),
            phase,
            string_views(old(shown)@),
            string_views(final(shown)@),
            r,
        ),
{
    read_stream_line(StreamDialect::Assistant, line, phase, shown)
}

/// Read one line of pi's `--mode json` output.
pub fn parse_pi_stream_line(line: &str, phase: Option<LlmPhase>, shown: &mut Vec<String>) -> (r: StreamLineOutcome)
    ensures
        trim(line@).len() == 0 ==> (r is Ignored && final(shown)@ == old(shown)@),
        trim(line@).len() > 0 && json_of(trim(line@)) is Err ==> (r matches StreamLineOutcome::Malformed {
            snippet: s,
        } && s@ == snippet(trim(line@), STREAM_SNIPPET_BYTES as nat) && final(shown)@ == old(shown)@),
        trim(line@).len() > 0 && json_of(trim(line@)) is Ok ==> outcome_ok(
            pi_action(json_of(trim(line@))->Ok_0),
            phase,
            string_views(old(shown)@),
            string_views(final(shown)@),
            r,
        ),
{
    read_stream_line(StreamDialect::Pi, line, phase, shown)
}

} // verus!
