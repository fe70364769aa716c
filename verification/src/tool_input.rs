//! Naming and summarising an agent's tool call from its raw fields: the
//! display name of an MCP tool, and the one-line detail drawn from the
//! tool's JSON input.

use vstd::prelude::*;

use crate::agent_common::{fit_chars, lemma_fit_chars};
use crate::json::{get_str, jget_str, JsonValue};
use crate::regex_support::{regex_captures, regex_captures_of, regex_compiles};
use crate::text::{chars_of, extend_chars, extend_str, owned, string_of, trim, trim_str, utf8_len, utf8_width_exec};

verus! {

/// `mcp__<server>__<tool>` (or `mcp__<server><tool>`): the tool part.
pub const MCP_TOOL_PATTERN: &'static str = "^mcp__[^_]+(?:__)?(.+)$";

/// The display name of a tool: the tool part of an MCP name, else the
/// name itself.
pub open spec fn clean_name(name: Seq<char>) -> Seq<char> {
    if regex_compiles(MCP_TOOL_PATTERN@) {
        match regex_captures(MCP_TOOL_PATTERN@, name) {
            Some(gs) => if gs.len() > 1 && gs[1] is Some {
                gs[1]->0
            } else {
                name
            },
            None => name,
        }
    } else {
        name
    }
}

pub fn clean_tool_name(name: &str) -> (r: String)
    ensures
        r@ == clean_name(name@),
{
    match regex_captures_of(MCP_TOOL_PATTERN, name) {
        Some(Some(gs)) => {
            if gs.len() > 1 {
                match &gs[1] {
                    Some(c) => crate::text::clone_string(c),
                    None => owned(name),
                }
            } else {
                owned(name)
            }
        },
        _ => owned(name),
    }
}

/// `s`, or, when its UTF-8 encoding is longer than `limit` bytes, the
/// longest prefix that fits in `keep` bytes followed by `...`.
pub open spec fn shorten(s: Seq<char>, limit: nat, keep: nat) -> Seq<char> {
    if utf8_len(s) > limit {
        s.take(fit_chars(s, keep) as int) + "..."@
    } else {
        s
    }
}

fn byte_len(v: &Vec<char>) -> (n: u64)
    ensures
        n as nat == crate::text::utf8_len(v@) || (n == u64::MAX && crate::text::utf8_len(v@) >= u64::MAX),
{
    let mut n: u64 = 0;
    let mut i: usize = 0;
    while i < v.len()
        invariant
            i <= v.len(),
            n as nat == utf8_len(v@.take(i as int)) || (n == u64::MAX && utf8_len(v@.take(i as int))
                >= u64::MAX),
        decreases v.len() - i,
    {
        assert(v@.take(i + 1).drop_last() =~= v@.take(i as int));
        let w = utf8_width_exec(v[i]) as u64;
        if n == u64::MAX || n > u64::MAX - w {
            n = u64::MAX;
        } else {
            n = n + w;
        }
        i += 1;
    }
    assert(v@.take(i as int) =~= v@);
    n
}

fn shorten_exec(s: &str, limit: usize, keep: usize) -> (r: String)
    requires
        limit < u64::MAX,
    ensures
        r@ == shorten(s@, limit as nat, keep as nat),
{
    let v = chars_of(s);
    let n = byte_len(&v);
    if n <= limit as u64 {
        return owned(s);
    }
    let mut k: usize = 0;
    let mut rem: usize = keep;
    assert(v@.skip(0) =~= v@);
    while k < v.len() && utf8_width_exec(v[k]) <= rem
        invariant
            k <= v.len(),
            rem <= keep,
            fit_chars(v@, keep as nat) == k + fit_chars(v@.skip(k as int), rem as nat),
        decreases v.len() - k,
    {
        let w = utf8_width_exec(v[k]);
        assert(v@.skip(k as int)[0] == v[k as int]);
        assert(v@.skip(k as int).drop_first() =~= v@.skip(k + 1));
        rem = rem - w;
        k += 1;
    }
    proof {
        if k < v.len() {
            assert(v@.skip(k as int)[0] == v[k as int]);
        }
        lemma_fit_chars(v@, keep as nat);
    }
    let mut out: Vec<char> = Vec::new();
    let mut i: usize = 0;
    while i < k
        invariant
            i <= k <= v.len(),
            out@ == v@.take(i as int),
        decreases k - i,
    {
        out.push(v[i]);
        assert(out@ =~= v@.take(i + 1));
        i += 1;
    }
    extend_str(&mut out, "...");
    string_of(&out)
}

/// The input members consulted, in order, for a tool's detail.
pub open spec fn detail_keys() -> Seq<Seq<char>> {
    seq!["path"@, "file_path"@, "command"@, "pattern"@, "query"@, "url"@, "prompt"@, "mode"@]
}

/// The first of `keys` whose member is a non-empty string.
pub open spec fn first_keyed(input: JsonValue, keys: Seq<Seq<char>>) -> Option<Seq<char>>
    decreases keys.len(),
{
    if keys.len() == 0 {
        None
    } else {
        match jget_str(input, keys[0]) {
            Some(s) => if s.len() > 0 {
                Some(s)
            } else {
                first_keyed(input, keys.skip(1))
            },
            None => first_keyed(input, keys.skip(1)),
        }
    }
}

/// The first member, in order, that is a non-empty string.
pub open spec fn first_nonempty_str(ms: Seq<(String, JsonValue)>) -> Option<Seq<char>>
    decreases ms.len(),
{
    if ms.len() == 0 {
        None
    } else {
        match ms[0].1 {
            JsonValue::Str(s) => if s@.len() > 0 {
                Some(s@)
            } else {
                first_nonempty_str(ms.skip(1))
            },
            _ => first_nonempty_str(ms.skip(1)),
        }
    }
}

/// A one-line detail for a tool input: the first non-empty string among
/// the well-known members (shortened past 80 bytes), else the first
/// non-empty string member (shortened past 60 bytes), else nothing.
pub open spec fn tool_detail(input: JsonValue) -> Seq<char> {
    match input {
        JsonValue::Object(ms) => match first_keyed(input, detail_keys()) {
            Some(d) => shorten(d, 80, 77),
            None => match first_nonempty_str(ms@) {
                Some(s) => shorten(s, 60, 57),
                None => seq![],
            },
        },
        _ => seq![],
    }
}

/// Extract a meaningful detail string from a tool's input parameters.
pub fn extract_tool_detail(input: &JsonValue) -> (r: String)
    ensures
        r@ == tool_detail(*input),
{
    match input {
        JsonValue::Object(ms) => {
            let keys: Vec<&str> = vec!["path", "file_path", "command", "pattern", "query", "url", "prompt", "mode"];
            let ghost kv = keys@.map_values(|k: &str| k@);
            assert(kv =~= detail_keys());
            let mut i: usize = 0;
            assert(kv.skip(0) =~= kv);
            while i < keys.len()
                invariant
                    i <= keys.len(),
                    kv == keys@.map_values(|k: &str| k@),
                    kv == detail_keys(),
                    *input == JsonValue::Object(*ms),
                    first_keyed(*input, kv) == first_keyed(*input, kv.skip(i as int)),
                decreases keys.len() - i,
            {
                assert(kv.skip(i as int)[0] == keys@[i as int]@);
                assert(kv.skip(i as int).skip(1) =~= kv.skip(i + 1));
                match get_str(input, keys[i]) {
                    Some(s) => {
                        if !s.is_empty() {
                            return shorten_exec(s, 80, 77);
                        }
                    },
                    None => {},
                }
                i += 1;
            }
            assert(kv.skip(i as int).len() == 0);
            let mut j: usize = 0;
            assert(ms@.skip(0) =~= ms@);
            while j < ms.len()
                invariant
                    j <= ms.len(),
                    first_keyed(*input, detail_keys()) is None,
                    *input == JsonValue::Object(*ms),
                    first_nonempty_str(ms@) == first_nonempty_str(ms@.skip(j as int)),
                decreases ms.len() - j,
            {
                assert(ms@.skip(j as int)[0] == ms@[j as int]);
                assert(ms@.skip(j as int).skip(1) =~= ms@.skip(j + 1));
                match &ms[j].1 {
                    JsonValue::Str(s) => {
                        if !s.as_str().is_empty() {
                            return shorten_exec(s.as_str(), 60, 57);
                        }
                    },
                    _ => {},
                }
                j += 1;
            }
            String::new()
        },
        _ => String::new(),
    }
}

/// A markdown heading of level one to four: its text (up to 60 chars).
pub const HEADING_PATTERN: &'static str = "(?m)^#{1,4}\\s+(.{1,60})";

/// Bold text: what stands between the first pair of `**` (up to 60 chars).
pub const BOLD_PATTERN: &'static str = "\\*\\*(.{1,60}?)\\*\\*";

/// Capture group 1 of the first match of `pattern` in `text`; `None` when
/// the pattern does not compile, does not match, or the group is empty of
/// a match.
pub open spec fn group1(pattern: Seq<char>, text: Seq<char>) -> Option<Seq<char>> {
    if regex_compiles(pattern) {
        match regex_captures(pattern, text) {
            Some(gs) => if gs.len() > 1 && gs[1] is Some {
                gs[1]
            } else {
                None
            },
            None => None,
        }
    } else {
        None
    }
}

fn capture_group1(pattern: &str, text: &str) -> (r: Option<String>)
    ensures
        match r {
            Some(s) => group1(pattern@, text@) == Some(s@),
            None => group1(pattern@, text@) is None,
        },
{
    match regex_captures_of(pattern, text) {
        Some(Some(gs)) => {
            if gs.len() > 1 {
                match &gs[1] {
                    Some(c) => Some(crate::text::clone_string(c)),
                    None => None,
                }
            } else {
                None
            }
        },
        _ => None,
    }
}

/// A short context for an edit: from the new text (else the old one), the
/// first heading's text, else the first bold text, trimmed.
pub open spec fn edit_context(old_text: Option<Seq<char>>, new_text: Option<Seq<char>>) -> Option<Seq<char>> {
    let source = match new_text {
        Some(n) => Some(n),
        None => old_text,
    };
    match source {
        None => None,
        Some(s) => match group1(HEADING_PATTERN@, s) {
            Some(h) => Some(trim(h)),
            None => match group1(BOLD_PATTERN@, s) {
                Some(b) => Some(trim(b)),
                None => None,
            },
        },
    }
}

pub fn extract_edit_context(old_text: Option<&str>, new_text: Option<&str>) -> (r: Option<String>)
    ensures
        match r {
            Some(c) => edit_context(
                match old_text {
                    Some(o) => Some(o@),
                    None => None,
                },
                match new_text {
                    Some(n) => Some(n@),
                    None => None,
                },
            ) == Some(c@),
            None => edit_context(
                match old_text {
                    Some(o) => Some(o@),
                    None => None,
                },
                match new_text {
                    Some(n) => Some(n@),
                    None => None,
                },
            ) is None,
        },
{
    let source = match new_text {
        Some(n) => n,
        None => match old_text {
            Some(o) => o,
            None => return None,
        },
    };
    match capture_group1(HEADING_PATTERN, source) {
        Some(h) => Some(trim_str(h.as_str())),
        None => match capture_group1(BOLD_PATTERN, source) {
            Some(b) => Some(trim_str(b.as_str())),
            None => None,
        },
    }
}

} // verus!
