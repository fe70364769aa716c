//! Trusted bridge to the `regex` crate for the patterns whose meaning
//! (Unicode case folding, alternation) is not restated here.

use vstd::prelude::*;

verus! {

/// Whether `pattern` compiles under the `regex` crate's syntax
/// (`regex::Regex::new` returns `Ok`).
pub uninterp spec fn regex_compiles(pattern: Seq<char>) -> bool;

/// Whether the compiled `pattern` matches anywhere in `text`
/// (`regex::Regex::is_match`).
pub uninterp spec fn regex_is_match(pattern: Seq<char>, text: Seq<char>) -> bool;

/// The capture groups (group 0 first) of the leftmost-first match of
/// `pattern` in `text` (`regex::Regex::captures`), each `None` where the
/// group did not take part; `None` when there is no match.
pub uninterp spec fn regex_captures(pattern: Seq<char>, text: Seq<char>) -> Option<Seq<Option<Seq<char>>>>;

/// Compiles `pattern` with `regex::Regex::new` and, when that succeeds,
/// answers `regex::Regex::is_match` on `text`. The contract claims that the
/// outcome is `Some` exactly when the pattern compiles, and that the answer
/// is a function of pattern and text alone.
#[verifier::external_body]
pub(crate) fn regex_match(pattern: &str, text: &str) -> (r: Option<bool>)
    ensures
        r is Some <==> regex_compiles(pattern@),
        r matches Some(b) ==> b == regex_is_match(pattern@, text@),
{
    match regex::Regex::new(pattern) {
        Ok(re) => Some(re.is_match(text)),
        Err(_) => None,
    }
}

/// The views of a list of optional strings.
pub open spec fn opt_strs(v: Seq<Option<String>>) -> Seq<Option<Seq<char>>> {
    v.map_values(|c: Option<String>| match c {
        Some(s) => Some(s@),
        None => None,
    })
}

/// Compiles `pattern` with `regex::Regex::new` and, when that succeeds,
/// returns the groups of `regex::Regex::captures` on `text` (in group
/// order, through `Captures::iter`). The contract claims that the outcome
/// is `Some` exactly when the pattern compiles, and names the groups by
/// `regex_captures`.
#[verifier::external_body]
pub(crate) fn regex_captures_of(pattern: &str, text: &str) -> (r: Option<Option<Vec<Option<String>>>>)
    ensures
        r is Some <==> regex_compiles(pattern@),
        r matches Some(c) ==> match c {
            Some(v) => regex_captures(pattern@, text@) == Some(opt_strs(v@)),
            None => regex_captures(pattern@, text@) is None,
        },
{
    match regex::Regex::new(pattern) {
        Ok(re) => Some(re.captures(text).map(|caps| caps.iter().map(|m| m.map(|x| x.as_str().to_string())).collect())),
        Err(_) => None,
    }
}

/// Capture group 1 of every successive non-overlapping match of `pattern`
/// in `text`, in order (`regex::Regex::captures_iter`, then
/// `Captures::get(1)` on each), `None` where the group did not take part.
pub uninterp spec fn regex_captures1_all(pattern: Seq<char>, text: Seq<char>) -> Seq<Option<Seq<char>>>;

/// Compiles `pattern` with `regex::Regex::new` and, when that succeeds,
/// collects capture group 1 of each match of `regex::Regex::captures_iter`
/// on `text`. The contract claims that the outcome is `Some` exactly when
/// the pattern compiles, and names the list by `regex_captures1_all`.
#[verifier::external_body]
pub(crate) fn regex_capture_group1_all(pattern: &str, text: &str) -> (r: Option<Vec<Option<String>>>)
    ensures
        r is Some <==> regex_compiles(pattern@),
        r matches Some(v) ==> opt_strs(v@) == regex_captures1_all(pattern@, text@),
{
    match regex::Regex::new(pattern) {
        Ok(re) => Some(re.captures_iter(text).map(|c| c.get(1).map(|m| m.as_str().to_string())).collect()),
        Err(_) => None,
    }
}

} // verus!
