//! Prompt composition: token substitution over phase prompts, and the
//! guard that refuses a prompt still holding a `{{NAME}}` placeholder.
//! Reading the phase files belongs to the binary.

use vstd::prelude::*;

use crate::order::{sorted_distinct, sorted_set, strictly_sorted, views_of};
use crate::paths::{join_path, path_join};
use crate::regex_support::{regex_capture_group1_all, regex_captures1_all, regex_compiles};
use crate::text::{
    lemma_replace_absent, lemma_replace_once, matches_at, chars_of, clone_string, extend_chars, extend_str, join, join_chars, replace_all, replace_str, string_of,
    views,
};
use crate::types::{llm_phase_name, LlmPhase, PlanContext};

verus! {

/// Leftover `{{NAME}}` placeholders (ASCII letters, digits, `_`).
pub const UNRESOLVED_TOKEN_PATTERN: &'static str = "\\{\\{([A-Za-z0-9_]+)\\}\\}";

/// `{{name}}`.
pub open spec fn braced(name: Seq<char>) -> Seq<char> {
    "{{"@ + name + "}}"@
}

fn braced_exec(name: &str) -> (r: String)
    ensures
        r@ == braced(name@),
        r@.len() > 0,
{
    proof {
        reveal_strlit("{{");
    }
    let mut v: Vec<char> = Vec::new();
    extend_str(&mut v, "{{");
    extend_str(&mut v, name);
    extend_str(&mut v, "}}");
    string_of(&v)
}

/// The caller's tokens, applied one after another in the given order.
pub open spec fn apply_tokens(s: Seq<char>, tokens: Seq<(Seq<char>, Seq<char>)>) -> Seq<char>
    decreases tokens.len(),
{
    if tokens.len() == 0 {
        s
    } else {
        replace_all(apply_tokens(s, tokens.drop_last()), braced(tokens.last().0), tokens.last().1)
    }
}

pub open spec fn token_views(tokens: Seq<(String, String)>) -> Seq<(Seq<char>, Seq<char>)> {
    tokens.map_values(|t: (String, String)| (t.0@, t.1@))
}

/// The prompt after substitution: `{{RELATED_PLANS}}` and the caller's
/// tokens first (they may inline text holding path tokens), then the
/// path tokens `{{DEV_ROOT}}`, `{{PROJECT}}`, `{{PLAN}}`, `{{ORCHESTRATOR}}`.
pub open spec fn expanded(content: Seq<char>, ctx: PlanContext, tokens: Seq<(Seq<char>, Seq<char>)>) -> Seq<char> {
    let a = replace_all(content, "{{RELATED_PLANS}}"@, ctx.related_plans@);
    let b = apply_tokens(a, tokens);
    let c = replace_all(b, "{{DEV_ROOT}}"@, ctx.dev_root@);
    let d = replace_all(c, "{{PROJECT}}"@, ctx.project_dir@);
    let e = replace_all(d, "{{PLAN}}"@, ctx.plan_dir@);
    replace_all(e, "{{ORCHESTRATOR}}"@, ctx.config_root@)
}

/// A placeholder-shaped token: `{{`, then no further `{`.
pub open spec fn token_shaped(tok: Seq<char>) -> bool {
    &&& tok.len() >= 3
    &&& tok[0] == '{'
    &&& tok[1] == '{'
    &&& forall|k: int| 2 <= k < tok.len() ==> tok[k] != '{'
}

/// In a text whose only braces are those of the token `tok`, a different
/// placeholder `pat` does not occur.
proof fn lemma_only_token(x: Seq<char>, tok: Seq<char>, y: Seq<char>, pat: Seq<char>)
    requires
        !x.contains('{'),
        !y.contains('{'),
        token_shaped(tok),
        pat.len() >= 2,
        pat[0] == '{',
        pat[1] == '{',
        exists|j: int| 2 <= j < pat.len() && j < tok.len() && pat[j] != tok[j],
    ensures
        forall|i: int| !matches_at(x + tok + y, pat, i),
{
    let s = x + tok + y;
    let j = choose|j: int| 2 <= j < pat.len() && j < tok.len() && pat[j] != tok[j];
    assert forall|i: int| !matches_at(s, pat, i) by {
        if matches_at(s, pat, i) {
            let w = s.subrange(i, i + pat.len());
            assert(w[0] == s[i]);
            assert(w[1] == s[i + 1]);
            if i < x.len() {
                assert(s[i] == x[i]);
            } else if i >= x.len() + tok.len() {
                assert(s[i] == y[i - x.len() - tok.len()]);
            } else {
                let k = i - x.len();
                assert(s[i] == tok[k]);
                if k == 0 {
                    assert(w[j] == s[i + j]);
                    assert(s[i + j] == tok[j]);
                } else {
                    assert(s[i + 1] == tok[k + 1] || i + 1 >= x.len() + tok.len());
                    if i + 1 < x.len() + tok.len() {
                        assert(s[i + 1] == tok[k + 1]);
                    } else {
                        assert(s[i + 1] == y[i + 1 - x.len() - tok.len()]);
                    }
                }
            }
        }
    }
}

/// A text with no `{` holds no placeholder.
proof fn lemma_no_brace_no_match(s: Seq<char>, pat: Seq<char>)
    requires
        !s.contains('{'),
        pat.len() >= 1,
        pat[0] == '{',
    ensures
        forall|i: int| !matches_at(s, pat, i),
{
    assert forall|i: int| !matches_at(s, pat, i) by {
        if matches_at(s, pat, i) {
            assert(s.subrange(i, i + pat.len())[0] == s[i]);
        }
    }
}

/// The text around a token, with a value in its place, holds no `{` when
/// neither the surrounding text nor the value does.
proof fn lemma_no_brace_concat(x: Seq<char>, v: Seq<char>, y: Seq<char>)
    requires
        !x.contains('{'),
        !v.contains('{'),
        !y.contains('{'),
    ensures
        !(x + v + y).contains('{'),
{
    let s = x + v + y;
    if s.contains('{') {
        let i = choose|i: int| 0 <= i < s.len() && s[i] == '{';
        if i < x.len() {
            assert(s[i] == x[i]);
        } else if i < x.len() + v.len() {
            assert(s[i] == v[i - x.len()]);
        } else {
            assert(s[i] == y[i - x.len() - v.len()]);
        }
    }
}

/// `tok` occurs once, between brace-free `x` and `y`.
proof fn lemma_replace_sole_token(x: Seq<char>, tok: Seq<char>, y: Seq<char>, r: Seq<char>)
    requires
        !x.contains('{'),
        !y.contains('{'),
        token_shaped(tok),
    ensures
        replace_all(x + tok + y, tok, r) == x + r + y,
{
    let s = x + tok + y;
    assert forall|i: int| 0 <= i < x.len() implies !matches_at(s, tok, i) by {
        if matches_at(s, tok, i) {
            assert(s.subrange(i, i + tok.len())[0] == s[i]);
            assert(s[i] == x[i]);
        }
    }
    lemma_no_brace_no_match(y, tok);
    lemma_replace_once(x, tok, y, r);
}

proof fn lemma_path_tokens_shaped()
    ensures
        token_shaped("{{RELATED_PLANS}}"@),
        token_shaped("{{DEV_ROOT}}"@),
        token_shaped("{{PROJECT}}"@),
        token_shaped("{{PLAN}}"@),
        token_shaped("{{ORCHESTRATOR}}"@),
{
    reveal_strlit("{{ORCHESTRATOR}}");
    reveal_strlit("{{RELATED_PLANS}}");
    reveal_strlit("{{DEV_ROOT}}");
    reveal_strlit("{{PROJECT}}");
    reveal_strlit("{{PLAN}}");
}

/// Each substitution step leaves a text with no `{` unchanged.
proof fn lemma_steps_keep_brace_free(s: Seq<char>, ctx: PlanContext, from: int)
    requires
        !s.contains('{'),
    ensures
        from <= 1 ==> replace_all(s, "{{DEV_ROOT}}"@, ctx.dev_root@) == s,
        from <= 2 ==> replace_all(s, "{{PROJECT}}"@, ctx.project_dir@) == s,
        from <= 3 ==> replace_all(s, "{{PLAN}}"@, ctx.plan_dir@) == s,
        replace_all(s, "{{ORCHESTRATOR}}"@, ctx.config_root@) == s,
{
    lemma_path_tokens_shaped();
    lemma_no_brace_no_match(s, "{{DEV_ROOT}}"@);
    lemma_replace_absent(s, "{{DEV_ROOT}}"@, ctx.dev_root@);
    lemma_no_brace_no_match(s, "{{PROJECT}}"@);
    lemma_replace_absent(s, "{{PROJECT}}"@, ctx.project_dir@);
    lemma_no_brace_no_match(s, "{{PLAN}}"@);
    lemma_replace_absent(s, "{{PLAN}}"@, ctx.plan_dir@);
    lemma_no_brace_no_match(s, "{{ORCHESTRATOR}}"@);
    lemma_replace_absent(s, "{{ORCHESTRATOR}}"@, ctx.config_root@);
}

/// `{{ORCHESTRATOR}}` is replaced by the config root: in a prompt whose
/// only braces are one such token, and with no caller tokens, the
/// substituted prompt is the text around the token with the config root
/// in its place (`substitute_tokens` gives this text back when it
/// succeeds).
pub proof fn orchestrator_token_becomes_config_root(x: Seq<char>, y: Seq<char>, ctx: PlanContext)
    requires
        !x.contains('{'),
        !y.contains('{'),
    ensures
        expanded(x + "{{ORCHESTRATOR}}"@ + y, ctx, seq![]) == x + ctx.config_root@ + y,
{
    reveal_strlit("{{ORCHESTRATOR}}");
    reveal_strlit("{{RELATED_PLANS}}");
    reveal_strlit("{{DEV_ROOT}}");
    reveal_strlit("{{PROJECT}}");
    reveal_strlit("{{PLAN}}");
    lemma_path_tokens_shaped();
    let o = "{{ORCHESTRATOR}}"@;
    let s = x + o + y;
    assert("{{RELATED_PLANS}}"@[2] != o[2]);
    lemma_only_token(x, o, y, "{{RELATED_PLANS}}"@);
    lemma_replace_absent(s, "{{RELATED_PLANS}}"@, ctx.related_plans@);
    assert(apply_tokens(s, seq![]) == s);
    assert("{{DEV_ROOT}}"@[2] != o[2]);
    lemma_only_token(x, o, y, "{{DEV_ROOT}}"@);
    lemma_replace_absent(s, "{{DEV_ROOT}}"@, ctx.dev_root@);
    assert("{{PROJECT}}"@[2] != o[2]);
    lemma_only_token(x, o, y, "{{PROJECT}}"@);
    lemma_replace_absent(s, "{{PROJECT}}"@, ctx.project_dir@);
    assert("{{PLAN}}"@[2] != o[2]);
    lemma_only_token(x, o, y, "{{PLAN}}"@);
    lemma_replace_absent(s, "{{PLAN}}"@, ctx.plan_dir@);
    lemma_replace_sole_token(x, o, y, ctx.config_root@);
}

/// `{{PLAN}}` is replaced by the plan directory (given text and value free
/// of braces, and no caller tokens).
pub proof fn plan_token_becomes_plan_dir(x: Seq<char>, y: Seq<char>, ctx: PlanContext)
    requires
        !x.contains('{'),
        !y.contains('{'),
        !ctx.plan_dir@.contains('{'),
    ensures
        expanded(x + "{{PLAN}}"@ + y, ctx, seq![]) == x + ctx.plan_dir@ + y,
{
    reveal_strlit("{{RELATED_PLANS}}");
    reveal_strlit("{{DEV_ROOT}}");
    reveal_strlit("{{PROJECT}}");
    reveal_strlit("{{PLAN}}");
    lemma_path_tokens_shaped();
    let t = "{{PLAN}}"@;
    let s = x + t + y;
    assert("{{RELATED_PLANS}}"@[2] != t[2]);
    lemma_only_token(x, t, y, "{{RELATED_PLANS}}"@);
    lemma_replace_absent(s, "{{RELATED_PLANS}}"@, ctx.related_plans@);
    assert(apply_tokens(s, seq![]) == s);
    assert("{{DEV_ROOT}}"@[2] != t[2]);
    lemma_only_token(x, t, y, "{{DEV_ROOT}}"@);
    lemma_replace_absent(s, "{{DEV_ROOT}}"@, ctx.dev_root@);
    assert("{{PROJECT}}"@[3] != t[3]);
    lemma_only_token(x, t, y, "{{PROJECT}}"@);
    lemma_replace_absent(s, "{{PROJECT}}"@, ctx.project_dir@);
    lemma_replace_sole_token(x, t, y, ctx.plan_dir@);
    lemma_no_brace_concat(x, ctx.plan_dir@, y);
    lemma_steps_keep_brace_free(x + ctx.plan_dir@ + y, ctx, 4);
}

/// `{{PROJECT}}` is replaced by the project directory (given text and
/// value free of braces, and no caller tokens).
pub proof fn project_token_becomes_project_dir(x: Seq<char>, y: Seq<char>, ctx: PlanContext)
    requires
        !x.contains('{'),
        !y.contains('{'),
        !ctx.project_dir@.contains('{'),
    ensures
        expanded(x + "{{PROJECT}}"@ + y, ctx, seq![]) == x + ctx.project_dir@ + y,
{
    reveal_strlit("{{RELATED_PLANS}}");
    reveal_strlit("{{DEV_ROOT}}");
    reveal_strlit("{{PROJECT}}");
    lemma_path_tokens_shaped();
    let t = "{{PROJECT}}"@;
    let s = x + t + y;
    assert("{{RELATED_PLANS}}"@[2] != t[2]);
    lemma_only_token(x, t, y, "{{RELATED_PLANS}}"@);
    lemma_replace_absent(s, "{{RELATED_PLANS}}"@, ctx.related_plans@);
    assert(apply_tokens(s, seq![]) == s);
    assert("{{DEV_ROOT}}"@[2] != t[2]);
    lemma_only_token(x, t, y, "{{DEV_ROOT}}"@);
    lemma_replace_absent(s, "{{DEV_ROOT}}"@, ctx.dev_root@);
    lemma_replace_sole_token(x, t, y, ctx.project_dir@);
    lemma_no_brace_concat(x, ctx.project_dir@, y);
    lemma_steps_keep_brace_free(x + ctx.project_dir@ + y, ctx, 3);
}

/// `{{DEV_ROOT}}` is replaced by the dev root (given text and value free
/// of braces, and no caller tokens).
pub proof fn dev_root_token_becomes_dev_root(x: Seq<char>, y: Seq<char>, ctx: PlanContext)
    requires
        !x.contains('{'),
        !y.contains('{'),
        !ctx.dev_root@.contains('{'),
    ensures
        expanded(x + "{{DEV_ROOT}}"@ + y, ctx, seq![]) == x + ctx.dev_root@ + y,
{
    reveal_strlit("{{RELATED_PLANS}}");
    reveal_strlit("{{DEV_ROOT}}");
    lemma_path_tokens_shaped();
    let t = "{{DEV_ROOT}}"@;
    let s = x + t + y;
    assert("{{RELATED_PLANS}}"@[2] != t[2]);
    lemma_only_token(x, t, y, "{{RELATED_PLANS}}"@);
    lemma_replace_absent(s, "{{RELATED_PLANS}}"@, ctx.related_plans@);
    assert(apply_tokens(s, seq![]) == s);
    lemma_replace_sole_token(x, t, y, ctx.dev_root@);
    lemma_no_brace_concat(x, ctx.dev_root@, y);
    lemma_steps_keep_brace_free(x + ctx.dev_root@ + y, ctx, 2);
}

/// `{{RELATED_PLANS}}` is replaced by the related-plans text (given text
/// and value free of braces, and no caller tokens).
pub proof fn related_plans_token_becomes_related_plans(x: Seq<char>, y: Seq<char>, ctx: PlanContext)
    requires
        !x.contains('{'),
        !y.contains('{'),
        !ctx.related_plans@.contains('{'),
    ensures
        expanded(x + "{{RELATED_PLANS}}"@ + y, ctx, seq![]) == x + ctx.related_plans@ + y,
{
    lemma_path_tokens_shaped();
    let t = "{{RELATED_PLANS}}"@;
    lemma_replace_sole_token(x, t, y, ctx.related_plans@);
    lemma_no_brace_concat(x, ctx.related_plans@, y);
    let r = x + ctx.related_plans@ + y;
    assert(apply_tokens(r, seq![]) == r);
    lemma_steps_keep_brace_free(r, ctx, 1);
}

/// The names of the placeholders left in `text`, as the token pattern
/// finds them (none when the pattern does not compile).
pub open spec fn leftover_names(text: Seq<char>) -> Seq<Option<Seq<char>>> {
    if regex_compiles(UNRESOLVED_TOKEN_PATTERN@) {
        regex_captures1_all(UNRESOLVED_TOKEN_PATTERN@, text)
    } else {
        seq![]
    }
}

/// The names present in a capture list, in order.
pub open spec fn present(cs: Seq<Option<Seq<char>>>) -> Seq<Seq<char>>
    decreases cs.len(),
{
    if cs.len() == 0 {
        seq![]
    } else {
        present(cs.drop_last()) + match cs.last() {
            Some(n) => seq![n],
            None => seq![],
        }
    }
}

pub open spec fn opt_views(cs: Seq<Option<String>>) -> Seq<Option<Seq<char>>> {
    cs.map_values(|c: Option<String>| match c {
        Some(s) => Some(s@),
        None => None,
    })
}

/// The distinct names of `names`, ascending, each braced, joined by `, `.
pub open spec fn braced_list(names: Seq<Seq<char>>) -> Seq<char> {
    join(sorted_set(names).map_values(|n: Seq<char>| braced(n)), ", "@)
}

/// The error for leftover placeholders `names`.
pub open spec fn unresolved_text(names: Seq<Seq<char>>) -> Seq<char> {
    "Prompt contains unresolved token(s) after substitution: "@ + braced_list(names)
        + ". This usually indicates a typo in a phase prompt or a missing agent-provided token."@
}

/// The leftover placeholder names of a capture list, braced, distinct and
/// ascending, joined by `, `; `None` when there are none.
pub fn leftover_list(names: &Vec<Option<String>>) -> (r: Option<String>)
    ensures
        present(opt_views(names@)).len() == 0 ==> r is None,
        present(opt_views(names@)).len() > 0 ==> (r matches Some(m) && m@ == braced_list(present(opt_views(names@)))),
{
    let mut found: Vec<String> = Vec::new();
    let mut i: usize = 0;
    while i < names.len()
        invariant
            i <= names.len(),
            views_of(found@) == present(opt_views(names@).take(i as int)),
        decreases names.len() - i,
    {
        assert(opt_views(names@).take(i + 1).drop_last() =~= opt_views(names@).take(i as int));
        let ghost before = found@;
        match &names[i] {
            Some(n) => {
                found.push(clone_string(n));
                assert(views_of(found@) =~= views_of(before).push(n@));
            },
            None => {},
        }
        i += 1;
    }
    assert(opt_views(names@).take(i as int) =~= opt_views(names@));
    if found.len() == 0 {
        return None;
    }
    let sorted = sorted_distinct(&found);
    let mut parts: Vec<Vec<char>> = Vec::new();
    let mut j: usize = 0;
    while j < sorted.len()
        invariant
            j <= sorted.len(),
            views(parts@) == views_of(sorted@).take(j as int).map_values(|n: Seq<char>| braced(n)),
        decreases sorted.len() - j,
    {
        let b = braced_exec(sorted[j].as_str());
        let ghost before = parts@;
        parts.push(chars_of(b.as_str()));
        assert(views(parts@) =~= views(before).push(b@));
        assert(views_of(sorted@).take(j + 1).map_values(|n: Seq<char>| braced(n)) =~= views_of(sorted@).take(
            j as int,
        ).map_values(|n: Seq<char>| braced(n)).push(braced(sorted@[j as int]@)));
        j += 1;
    }
    assert(views_of(sorted@).take(j as int) =~= views_of(sorted@));
    let joined = join_chars(&parts, ", ");
    Some(string_of(&joined))
}

/// The error for a list of leftover placeholder names: `None` when there
/// are none, else every distinct name once, in ascending order.
pub fn unresolved_token_error(names: &Vec<Option<String>>) -> (r: Option<String>)
    ensures
        present(opt_views(names@)).len() == 0 ==> r is None,
        present(opt_views(names@)).len() > 0 ==> (r matches Some(m) && m@ == unresolved_text(
            present(opt_views(names@)),
        )),
{
    match leftover_list(names) {
        None => None,
        Some(list) => {
            let mut v: Vec<char> = Vec::new();
            extend_str(&mut v, "Prompt contains unresolved token(s) after substitution: ");
            extend_str(&mut v, list.as_str());
            extend_str(&mut v, ". This usually indicates a typo in a phase prompt or a missing agent-provided token.");
            Some(string_of(&v))
        },
    }
}

/// Replace template tokens, then refuse the result if any `{{NAME}}`
/// placeholder remains, listing every one of them. `tokens` are applied in
/// the given order.
pub fn substitute_tokens(content: &str, ctx: &PlanContext, tokens: &Vec<(String, String)>) -> (r: Result<
    String,
    String,
>)
    ensures
        ({
            let x = expanded(content@, *ctx, token_views(tokens@));
            let left = present(leftover_names(x));
            &&& left.len() == 0 ==> r == Ok::<String, String>(r->Ok_0) && r->Ok_0@ == x
            &&& left.len() > 0 ==> (r matches Err(m) && m@ == unresolved_text(left))
        }),
{
    proof {
        reveal_strlit("{{RELATED_PLANS}}");
        reveal_strlit("{{DEV_ROOT}}");
        reveal_strlit("{{PROJECT}}");
        reveal_strlit("{{PLAN}}");
        reveal_strlit("{{ORCHESTRATOR}}");
    }
    let ghost tv = token_views(tokens@);
    let mut result = replace_str(content, "{{RELATED_PLANS}}", ctx.related_plans.as_str());
    let ghost a = result@;
    let mut i: usize = 0;
    while i < tokens.len()
        invariant
            i <= tokens.len(),
            tv == token_views(tokens@),
            result@ == apply_tokens(a, tv.take(i as int)),
        decreases tokens.len() - i,
    {
        assert(tv.take(i + 1).drop_last() =~= tv.take(i as int));
        let key = braced_exec(tokens[i].0.as_str());
        result = replace_str(result.as_str(), key.as_str(), tokens[i].1.as_str());
        i += 1;
    }
    assert(tv.take(i as int) =~= tv);
    result = replace_str(result.as_str(), "{{DEV_ROOT}}", ctx.dev_root.as_str());
    result = replace_str(result.as_str(), "{{PROJECT}}", ctx.project_dir.as_str());
    result = replace_str(result.as_str(), "{{PLAN}}", ctx.plan_dir.as_str());
    result = replace_str(result.as_str(), "{{ORCHESTRATOR}}", ctx.config_root.as_str());
    let names = match regex_capture_group1_all(UNRESOLVED_TOKEN_PATTERN, result.as_str()) {
        Some(v) => v,
        None => Vec::new(),
    };
    assert(opt_views(names@) == leftover_names(result@));
    match unresolved_token_error(&names) {
        Some(m) => Err(m),
        None => Ok(result),
    }
}

/// The phase prompt file under the config root: `phases/<phase>.md`.
pub open spec fn phase_file_path(config_root: Seq<char>, phase: LlmPhase) -> Seq<char> {
    path_join(path_join(config_root, "phases"@), llm_phase_name(phase) + ".md"@)
}

pub fn phase_file(config_root: &str, phase: LlmPhase) -> (r: String)
    ensures
        r@ == phase_file_path(config_root@, phase),
{
    let dir = join_path(config_root, "phases");
    let mut v: Vec<char> = Vec::new();
    extend_str(&mut v, phase.as_str());
    extend_str(&mut v, ".md");
    join_path(dir.as_str(), string_of(&v).as_str())
}

/// The optional plan-specific override: `<plan>/prompt-<phase>.md`.
pub open spec fn plan_override_path(plan_dir: Seq<char>, phase: LlmPhase) -> Seq<char> {
    path_join(plan_dir, "prompt-"@ + llm_phase_name(phase) + ".md"@)
}

pub fn plan_override_file(plan_dir: &str, phase: LlmPhase) -> (r: String)
    ensures
        r@ == plan_override_path(plan_dir@, phase),
{
    let mut v: Vec<char> = Vec::new();
    extend_str(&mut v, "prompt-");
    extend_str(&mut v, phase.as_str());
    extend_str(&mut v, ".md");
    join_path(plan_dir, string_of(&v).as_str())
}

/// The prompt text before substitution: the phase file, then, when the
/// plan has an override, a horizontal rule and the override.
pub open spec fn combined(base: Seq<char>, override_text: Option<Seq<char>>) -> Seq<char> {
    match override_text {
        Some(ov) => base + "\n\n---\n\n"@ + ov,
        None => base,
    }
}

/// Compose the full prompt for a phase from the phase file's text and the
/// plan's override text (when it has one).
pub fn compose_prompt(base: &str, override_text: Option<&str>, ctx: &PlanContext, tokens: &Vec<(String, String)>) -> (r:
    Result<String, String>)
    ensures
        ({
            let x = expanded(
                combined(
                    base@,
                    match override_text {
                        Some(o) => Some(o@),
                        None => None,
                    },
                ),
                *ctx,
                token_views(tokens@),
            );
            let left = present(leftover_names(x));
            &&& left.len() == 0 ==> r == Ok::<String, String>(r->Ok_0) && r->Ok_0@ == x
            &&& left.len() > 0 ==> (r matches Err(m) && m@ == unresolved_text(left))
        }),
{
    let mut v = chars_of(base);
    match override_text {
        Some(ov) => {
            extend_str(&mut v, "\n\n---\n\n");
            extend_str(&mut v, ov);
        },
        None => {},
    }
    let prompt = string_of(&v);
    substitute_tokens(prompt.as_str(), ctx, tokens)
}

} // verus!
