//! What the streaming CLI agents share once their process runs:
//! the outcome of reading one stream line, the snippet kept of a line that
//! would not parse, the warning line shown for it, and the plan context
//! of a dispatched subagent. Pumping the child's output belongs to the
//! binary.

use vstd::prelude::*;

use crate::format::{bold_intent_style, FormattedOutput, Intent, Span, Style, StyledLine};
use crate::git::{project_root_for_plan, shallow_plan_text, subtree_root};
use crate::paths::{grandparent, grandparent_of};
use crate::text::{chars_of, extend_str, owned, string_of, utf8_len, utf8_width, utf8_width_exec};
use crate::types::PlanContext;

verus! {

/// Rolling cap on stderr retained for error messages.
pub const STDERR_BUFFER_CAP: usize = 4096;

/// Max bytes of a malformed stream line kept in the per-line warning.
pub const STREAM_SNIPPET_BYTES: usize = 200;

/// Outcome of interpreting one stream-JSON line from an agent: something
/// to show, nothing to show (valid but uninteresting), or a line that did
/// not parse, kept as a snippet so format drift is never silent.
pub enum StreamLineOutcome {
    Output(FormattedOutput),
    Ignored,
    Malformed { snippet: String },
}

/// How many leading characters of `s` fit in `max` bytes of UTF-8.
pub open spec fn fit_chars(s: Seq<char>, max: nat) -> nat
    decreases s.len(),
{
    if s.len() == 0 || utf8_width(s[0]) > max {
        0
    } else {
        1 + fit_chars(s.drop_first(), (max - utf8_width(s[0])) as nat)
    }
}

/// `raw` when its UTF-8 encoding fits in `max` bytes; else its longest
/// prefix that fits, cut on a character boundary, followed by `…`.
pub open spec fn snippet(raw: Seq<char>, max: nat) -> Seq<char> {
    if utf8_len(raw) <= max {
        raw
    } else {
        raw.take(fit_chars(raw, max) as int) + seq!['…']
    }
}

pub proof fn lemma_utf8_len_cons(s: Seq<char>)
    requires
        s.len() > 0,
    ensures
        utf8_len(s) == utf8_width(s[0]) + utf8_len(s.drop_first()),
    decreases s.len(),
{
    if s.len() > 1 {
        lemma_utf8_len_cons(s.drop_last());
        assert(s.drop_last().drop_first() =~= s.drop_first().drop_last());
        assert(s.drop_last()[0] == s[0]);
        assert(s.drop_first().last() == s.last());
        assert(utf8_len(s.drop_first()) == utf8_len(s.drop_first().drop_last()) + utf8_width(s.drop_first().last()));
    } else {
        assert(s.drop_first().len() == 0);
        assert(s.drop_last().len() == 0);
        assert(utf8_len(s.drop_last()) == 0);
        assert(utf8_len(s.drop_first()) == 0);
        assert(s.last() == s[0]);
    }
}

/// The prefix `fit_chars` keeps fits; everything fits exactly when the
/// whole string does.
pub proof fn lemma_fit_chars(s: Seq<char>, max: nat)
    ensures
        fit_chars(s, max) <= s.len(),
        utf8_len(s.take(fit_chars(s, max) as int)) <= max,
        (fit_chars(s, max) == s.len()) <==> utf8_len(s) <= max,
    decreases s.len(),
{
    if s.len() == 0 {
        assert(s.take(0).len() == 0);
    } else {
        lemma_utf8_len_cons(s);
        if utf8_width(s[0]) > max {
            assert(s.take(0).len() == 0);
        } else {
            let t = s.drop_first();
            let m2 = (max - utf8_width(s[0])) as nat;
            lemma_fit_chars(t, m2);
            let k = fit_chars(t, m2);
            let p = s.take(k + 1 as int);
            assert(p.len() > 0);
            lemma_utf8_len_cons(p);
            assert(p.drop_first() =~= t.take(k as int));
        }
    }
}

/// The snippet never exceeds the cap by more than the ellipsis (three
/// bytes), and is the line itself when the line fits.
pub proof fn snippet_is_bounded(raw: Seq<char>, max: nat)
    ensures
        utf8_len(snippet(raw, max)) <= max + 3,
        utf8_len(raw) <= max ==> snippet(raw, max) == raw,
        utf8_len(raw) > max ==> raw.take(fit_chars(raw, max) as int) + seq!['…'] == snippet(raw, max),
{
    lemma_fit_chars(raw, max);
    if utf8_len(raw) > max {
        let p = raw.take(fit_chars(raw, max) as int);
        let q = p + seq!['…'];
        assert(q.drop_last() =~= p);
        assert(utf8_width('…') == 3);
    }
}

/// Truncate `raw` to at most `max_bytes` on a UTF-8 character boundary,
/// appending `…` when trimmed.
pub fn truncate_snippet(raw: &str, max_bytes: usize) -> (r: String)
    ensures
        r@ == snippet(raw@, max_bytes as nat),
{
    let v = chars_of(raw);
    let mut k: usize = 0;
    let mut rem: usize = max_bytes;
    assert(v@.skip(0) =~= v@);
    while k < v.len() && utf8_width_exec(v[k]) <= rem
        invariant
            k <= v.len(),
            rem <= max_bytes,
            fit_chars(v@, max_bytes as nat) == k + fit_chars(v@.skip(k as int), rem as nat),
        decreases v.len() - k,
    {
        let w = utf8_width_exec(v[k]);
        assert(v@.skip(k as int)[0] == v[k as int]);
        assert(v@.skip(k as int).drop_first() =~= v@.skip(k + 1));
        rem = rem - w;
        k += 1;
    }
    proof {
        if k < v.len() {
            assert(v@.skip(k as int)[0] == v[k as int]);
        }
        lemma_fit_chars(v@, max_bytes as nat);
    }
    if k == v.len() {
        return owned(raw);
    }
    let mut out: Vec<char> = Vec::new();
    let mut i: usize = 0;
    while i < k
        invariant
            i <= k < v.len(),
            out@ == v@.take(i as int),
        decreases k - i,
    {
        out.push(v[i]);
        assert(out@ =~= v@.take(i + 1));
        i += 1;
    }
    out.push('…');
    string_of(&out)
}

/// The span a warning line shows.
pub open spec fn warning_text(body: Seq<char>) -> Seq<char> {
    "  ⚠  "@ + body
}

/// A `⚠` warning line in bold with the `Changed` intent.
pub fn warning_line(body: String) -> (l: StyledLine)
    ensures
        l@ == seq![(warning_text(body@), bold_intent_style(Intent::Changed))],
{
    let mut v: Vec<char> = Vec::new();
    extend_str(&mut v, "  ⚠  ");
    extend_str(&mut v, body.as_str());
    let mut spans: Vec<Span> = Vec::new();
    spans.push(Span::styled(string_of(&v), Style::bold_intent(Intent::Changed)));
    let l = StyledLine(spans);
    assert(l@ =~= seq![(warning_text(body@), bold_intent_style(Intent::Changed))]);
    l
}

/// The warning shown for a stream line that did not parse.
pub fn malformed_warning(agent_name: &str, snippet: &str) -> (l: StyledLine)
    ensures
        l@ == seq![
            (
                warning_text(agent_name@ + " stream-JSON parse failed — dropping line: "@ + snippet@),
                bold_intent_style(Intent::Changed),
            ),
        ],
{
    let mut v: Vec<char> = Vec::new();
    extend_str(&mut v, agent_name);
    extend_str(&mut v, " stream-JSON parse failed — dropping line: ");
    extend_str(&mut v, snippet);
    warning_line(string_of(&v))
}

/// The one-shot warning when an agent's stderr outgrew the buffer.
pub fn stderr_overflow_warning(agent_name: &str) -> (l: StyledLine)
    ensures
        l@ == seq![
            (
                warning_text(agent_name@ + " stderr exceeded "@ + crate::text::decimal(STDERR_BUFFER_CAP as nat)
                    + "-byte buffer — earlier lines dropped"@),
                bold_intent_style(Intent::Changed),
            ),
        ],
{
    let mut v: Vec<char> = Vec::new();
    extend_str(&mut v, agent_name);
    extend_str(&mut v, " stderr exceeded ");
    crate::text::push_decimal(&mut v, STDERR_BUFFER_CAP as u64);
    extend_str(&mut v, "-byte buffer — earlier lines dropped");
    warning_line(string_of(&v))
}

/// Build the plan context of a subagent dispatched to `target_plan`:
/// its subtree root as project directory (`canonical` is the canonical
/// plan path, when it could be had), the plan's grandparent as dev root
/// (empty when there is none), no related plans.
pub fn build_dispatch_plan_context(target_plan: &str, canonical: Option<&str>, config_root: String) -> (r: Result<
    PlanContext,
    String,
>)
    ensures
        ({
            let c = match canonical {
                Some(c) => c@,
                None => target_plan@,
            };
            match subtree_root(c) {
                None => r matches Err(e) && e@ == shallow_plan_text(target_plan@),
                Some(root) => r matches Ok(ctx) && ctx.plan_dir@ == target_plan@ && ctx.project_dir@ == root
                    && ctx.dev_root@ == match grandparent(target_plan@) {
                    Some(g) => g,
                    None => seq![],
                } && ctx.related_plans@.len() == 0 && ctx.config_root@ == config_root@,
            }
        }),
{
    let project_dir = match project_root_for_plan(target_plan, canonical) {
        Ok(p) => p,
        Err(e) => return Err(e),
    };
    let dev_root = match grandparent_of(target_plan) {
        Some(g) => g,
        None => String::new(),
    };
    Ok(
        PlanContext {
            plan_dir: owned(target_plan),
            project_dir,
            dev_root,
            related_plans: String::new(),
            config_root,
        },
    )
}

} // verus!
