//! Multi-plan run mode: `ravel-lite run` with more than one plan
//! directory. The loop is survey → select → dispatch one phase cycle →
//! repeat. This module holds the selection logic: the plan lookup table,
//! the options offered (the survey's recommended order, or every plan
//! sorted), the menu text, and the step taken on each line the user
//! types. Reading stdin, running the survey and dispatching cycles
//! belong to the binary.

use vstd::prelude::*;

use crate::order::{lemma_sorted_set_is, lex_lt, sorted_distinct, sorted_set, strictly_sorted, views_of};
use crate::projects::{first_index, is_first, lemma_first_index_is, lemma_first_index_some_contains};
use crate::text::{
    chars_of, clone_string, decimal, eq_ignore_ascii_case, eq_ignore_ascii_case_str, extend_str,
    parse_usize, parse_usize_spec, push_decimal, str_eq, string_of, trim, trim_chars,
};

verus! {

/// One entry of the survey's `recommended_invocation_order`.
#[derive(Debug, Clone, PartialEq, Eq)]
pub struct Recommendation {
    /// `project/plan` key.
    pub plan: String,
    pub order: u32,
    pub rationale: String,
}

/// What the selection reads of a survey response.
#[derive(Debug, Clone, PartialEq, Eq)]
pub struct SurveyResponse {
    pub recommended_invocation_order: Vec<Recommendation>,
}

/// A plan option presented to the user for selection.
#[derive(Debug, Clone, PartialEq, Eq)]
pub struct SelectionOption {
    /// `project/plan` key.
    pub key: String,
    /// Short rationale shown next to the ordinal; empty for fallback options.
    pub rationale: String,
}

/// Plan directories by `project/plan` key. Keys are unique when built by
/// `build_plan_dir_map`.
#[derive(Debug, Clone, PartialEq, Eq)]
pub struct PlanDirMap {
    pub entries: Vec<(String, String)>,
}

pub open spec fn pair_keys(es: Seq<(String, String)>) -> Seq<Seq<char>> {
    es.map_values(|e: (String, String)| e.0@)
}

pub open spec fn pair_vals(es: Seq<(String, String)>) -> Seq<Seq<char>> {
    es.map_values(|e: (String, String)| e.1@)
}

pub open spec fn map_keys(m: PlanDirMap) -> Seq<Seq<char>> {
    pair_keys(m.entries@)
}

pub open spec fn map_dirs(m: PlanDirMap) -> Seq<Seq<char>> {
    pair_vals(m.entries@)
}

pub open spec fn probe_dirs(ps: Seq<PlanProbe>) -> Seq<Seq<char>> {
    ps.map_values(|p: PlanProbe| p.dir@)
}

pub proof fn lemma_probe_error_prefix(ps: Seq<PlanProbe>, k: int)
    requires
        0 <= k <= ps.len(),
        probe_error(ps.take(k)) is Some,
    ensures
        probe_error(ps) == probe_error(ps.take(k)),
    decreases ps.len() - k,
{
    if k < ps.len() {
        assert(ps.take(k + 1).drop_last() =~= ps.take(k));
        lemma_probe_error_prefix(ps, k + 1);
    } else {
        assert(ps.take(k) =~= ps);
    }
}

/// What the binary learned about one plan directory on the command line:
/// whether it holds `phase.md`, and its `project/plan` key (or why the
/// plan could not be loaded).
pub struct PlanProbe {
    pub dir: String,
    pub has_phase_md: bool,
    pub key: Result<String, String>,
}

/// Position of the first entry with key `key`.
fn key_position(es: &Vec<(String, String)>, key: &str) -> (r: Option<usize>)
    ensures
        match r {
            Some(i) => first_index(pair_keys(es@), key@) == Some(i as int) && i < es@.len(),
            None => first_index(pair_keys(es@), key@) is None && !pair_keys(es@).contains(key@),
        },
{
    let ghost ks = pair_keys(es@);
    let mut i: usize = 0;
    while i < es.len()
        invariant
            i <= es.len(),
            ks == pair_keys(es@),
            forall|l: int| 0 <= l < i ==> ks[l] != key@,
        decreases es.len() - i,
    {
        if str_eq(es[i].0.as_str(), key) {
            proof {
                assert(is_first(ks, key@, i as int));
                lemma_first_index_is(ks, key@, i as int);
            }
            return Some(i);
        }
        i += 1;
    }
    None
}

pub open spec fn keys_distinct(keys: Seq<Seq<char>>) -> bool {
    forall|i: int, j: int| 0 <= i < j < keys.len() ==> keys[i] != keys[j]
}

/// The first problem among the probes, in command-line order: a missing
/// `phase.md`, a plan that failed to load, or a key already taken by an
/// earlier directory.
pub open spec fn probe_error(ps: Seq<PlanProbe>) -> Option<Seq<char>>
    decreases ps.len(),
{
    if ps.len() == 0 {
        None
    } else {
        match probe_error(ps.drop_last()) {
            Some(e) => Some(e),
            None => {
                let p = ps.last();
                if !p.has_phase_md {
                    Some(p.dir@ + "/phase.md not found. Is this a valid plan directory?"@)
                } else {
                    match p.key {
                        Err(e) => Some(e@),
                        Ok(k) => match first_index(probe_keys(ps.drop_last()), k@) {
                            Some(i) => Some("two plan directories resolve to the same project/plan key '"@ + k@
                                + "': "@ + ps[i].dir@ + " and "@ + p.dir@
                                + ". Rename or move one so each plan has a unique identifier."@),
                            None => None,
                        },
                    }
                }
            },
        }
    }
}

/// The keys of probes that loaded.
pub open spec fn probe_keys(ps: Seq<PlanProbe>) -> Seq<Seq<char>> {
    ps.map_values(|p: PlanProbe| match p.key {
        Ok(k) => k@,
        Err(_) => seq![],
    })
}

/// Build the plan lookup table, refusing directories without `phase.md`,
/// plans that failed to load, and two directories with the same key.
pub fn build_plan_dir_map(probes: &Vec<PlanProbe>) -> (r: Result<PlanDirMap, String>)
    ensures
        match r {
            Ok(m) => probe_error(probes@) is None && map_keys(m) == probe_keys(probes@) && map_dirs(m)
                == probe_dirs(probes@) && keys_distinct(map_keys(m)),
            Err(e) => probe_error(probes@) == Some(e@),
        },
{
    let mut entries: Vec<(String, String)> = Vec::new();
    let mut i: usize = 0;
    while i < probes.len()
        invariant
            i <= probes.len(),
            probe_error(probes@.take(i as int)) is None,
            pair_keys(entries@) == probe_keys(probes@.take(i as int)),
            pair_vals(entries@) == probe_dirs(probes@.take(i as int)),
            keys_distinct(pair_keys(entries@)),
        decreases probes.len() - i,
    {
        let p = &probes[i];
        let ghost pre = probes@.take(i as int);
        assert(probes@.take(i + 1).drop_last() =~= pre);
        assert(probes@.take(i + 1).last() == *p);
        let ghost ks = pair_keys(entries@);
        if !p.has_phase_md {
            let mut v: Vec<char> = Vec::new();
            extend_str(&mut v, p.dir.as_str());
            extend_str(&mut v, "/phase.md not found. Is this a valid plan directory?");
            proof {
                lemma_probe_error_prefix(probes@, i + 1);
            }
            return Err(string_of(&v));
        }
        let key = match &p.key {
            Err(e) => {
                proof {
                    lemma_probe_error_prefix(probes@, i + 1);
                }
                return Err(clone_string(e));
            },
            Ok(k) => k,
        };
        if let Some(j) = key_position(&entries, key.as_str()) {
            proof {
                assert(probe_keys(pre) == ks);
                assert(pair_vals(entries@)[j as int] == probe_dirs(pre)[j as int]);
                assert(probe_error(probes@.take(i + 1)) is Some);
                lemma_probe_error_prefix(probes@, i + 1);
            }
            let mut v: Vec<char> = Vec::new();
            extend_str(&mut v, "two plan directories resolve to the same project/plan key '");
            extend_str(&mut v, key.as_str());
            extend_str(&mut v, "': ");
            extend_str(&mut v, entries[j].1.as_str());
            extend_str(&mut v, " and ");
            extend_str(&mut v, p.dir.as_str());
            extend_str(&mut v, ". Rename or move one so each plan has a unique identifier.");
            return Err(string_of(&v));
        }
        let ghost before = entries@;
        entries.push((clone_string(key), clone_string(&p.dir)));
        proof {
            let ks2 = pair_keys(entries@);
            assert(ks2 =~= ks.push(key@));
            assert(probe_keys(probes@.take(i + 1)) =~= probe_keys(pre).push(key@));
            assert(pair_vals(entries@) =~= pair_vals(before).push(p.dir@));
            assert(probe_dirs(probes@.take(i + 1)) =~= probe_dirs(pre).push(p.dir@));
        }
        i += 1;
    }
    assert(probes@.take(probes.len() as int) =~= probes@);
    Ok(PlanDirMap { entries })
}

/// The directory recorded for `key`.
pub fn plan_dir_for(m: &PlanDirMap, key: &str) -> (r: Option<String>)
    ensures
        match first_index(map_keys(*m), key@) {
            Some(i) => r matches Some(d) && d@ == map_dirs(*m)[i],
            None => r is None,
        },
{
    match key_position(&m.entries, key) {
        Some(i) => Some(clone_string(&m.entries[i].1)),
        None => None,
    }
}

pub open spec fn drift_text(plan: Seq<char>) -> Seq<char> {
    "survey recommended plan '"@ + plan
        + "' but no such plan directory was supplied on the command line. This is an LLM-drift signal — re-run the survey (delete the --survey-state file to force a cold start) and, if it recurs, check the prompt or the plan_dirs arguments."@
}

pub open spec fn rec_plans(recs: Seq<Recommendation>) -> Seq<Seq<char>> {
    recs.map_values(|r: Recommendation| r.plan@)
}

/// The first recommendation naming a plan not in `keys`.
pub open spec fn first_unknown(plans: Seq<Seq<char>>, keys: Seq<Seq<char>>) -> Option<int> {
    if exists|i: int| 0 <= i < plans.len() && !keys.contains(#[trigger] plans[i]) {
        Some(
            choose|i: int|
                0 <= i < plans.len() && !keys.contains(#[trigger] plans[i]) && forall|j: int|
                    0 <= j < i ==> keys.contains(#[trigger] plans[j]),
        )
    } else {
        None
    }
}

pub open spec fn option_views(os: Seq<SelectionOption>) -> Seq<(Seq<char>, Seq<char>)> {
    os.map_values(|o: SelectionOption| (o.key@, o.rationale@))
}

pub open spec fn option_keys(os: Seq<SelectionOption>) -> Seq<Seq<char>> {
    os.map_values(|o: SelectionOption| o.key@)
}

pub open spec fn rec_views(recs: Seq<Recommendation>) -> Seq<(Seq<char>, Seq<char>)> {
    recs.map_values(|x: Recommendation| (x.plan@, x.rationale@))
}

/// `os` is the fallback list: every key of `keys` once, ascending, with
/// no rationale.
pub open spec fn fallback_options(os: Seq<SelectionOption>, keys: Seq<Seq<char>>) -> bool {
    &&& strictly_sorted(option_keys(os))
    &&& option_keys(os).to_set() == keys.to_set()
    &&& forall|i: int| 0 <= i < os.len() ==> (#[trigger] os[i]).rationale@.len() == 0
}

fn key_known(m: &PlanDirMap, key: &str) -> (r: bool)
    ensures
        r == map_keys(*m).contains(key@),
{
    match key_position(&m.entries, key) {
        Some(i) => {
            proof {
                assert(is_first(map_keys(*m), key@, i as int));
            }
            true
        },
        None => false,
    }
}

pub proof fn lemma_first_unknown_is(plans: Seq<Seq<char>>, keys: Seq<Seq<char>>, i: int)
    requires
        0 <= i < plans.len(),
        !keys.contains(plans[i]),
        forall|j: int| 0 <= j < i ==> keys.contains(#[trigger] plans[j]),
    ensures
        first_unknown(plans, keys) == Some(i),
{
    assert(exists|w: int| 0 <= w < plans.len() && !keys.contains(#[trigger] plans[w]));
    let c = first_unknown(plans, keys)->0;
    assert(0 <= c < plans.len() && !keys.contains(plans[c]) && forall|j: int|
        0 <= j < c ==> keys.contains(#[trigger] plans[j]));
    if c < i {
        assert(keys.contains(plans[c]));
    } else if i < c {
        assert(keys.contains(plans[i]));
    }
}

/// The options the user sees: the survey's recommended order when it
/// gave one (a recommendation naming an unknown plan is an error), else
/// every known plan in ascending key order without rationale.
pub fn options_from_response(response: &SurveyResponse, plan_dir_by_key: &PlanDirMap) -> (r: Result<
    Vec<SelectionOption>,
    String,
>)
    ensures
        response.recommended_invocation_order@.len() == 0 ==> (r matches Ok(os) && fallback_options(
            os@,
            map_keys(*plan_dir_by_key),
        )),
        response.recommended_invocation_order@.len() > 0 ==> match first_unknown(
            rec_plans(response.recommended_invocation_order@),
            map_keys(*plan_dir_by_key),
        ) {
            Some(i) => (r matches Err(e) && e@ == drift_text(rec_plans(response.recommended_invocation_order@)[i])),
            None => (r matches Ok(os) && option_views(os@) == rec_views(response.recommended_invocation_order@)),
        },
{
    let recs = &response.recommended_invocation_order;
    if recs.len() == 0 {
        let mut keys: Vec<String> = Vec::new();
        let mut i: usize = 0;
        while i < plan_dir_by_key.entries.len()
            invariant
                i <= plan_dir_by_key.entries.len(),
                views_of(keys@) == map_keys(*plan_dir_by_key).take(i as int),
            decreases plan_dir_by_key.entries.len() - i,
        {
            let ghost before = keys@;
            keys.push(clone_string(&plan_dir_by_key.entries[i].0));
            assert(views_of(keys@) =~= views_of(before).push(plan_dir_by_key.entries@[i as int].0@));
            assert(map_keys(*plan_dir_by_key).take(i + 1) =~= map_keys(*plan_dir_by_key).take(i as int).push(
                plan_dir_by_key.entries@[i as int].0@,
            ));
            i += 1;
        }
        assert(map_keys(*plan_dir_by_key).take(i as int) =~= map_keys(*plan_dir_by_key));
        let sorted = sorted_distinct(&keys);
        let mut out: Vec<SelectionOption> = Vec::new();
        let mut j: usize = 0;
        while j < sorted.len()
            invariant
                j <= sorted.len(),
                option_keys(out@) == views_of(sorted@).take(j as int),
                forall|l: int| 0 <= l < out@.len() ==> (#[trigger] out@[l]).rationale@.len() == 0,
            decreases sorted.len() - j,
        {
            let ghost before = out@;
            out.push(SelectionOption { key: clone_string(&sorted[j]), rationale: String::new() });
            assert(option_keys(out@) =~= option_keys(before).push(sorted@[j as int]@));
            assert(views_of(sorted@).take(j + 1) =~= views_of(sorted@).take(j as int).push(sorted@[j as int]@));
            j += 1;
        }
        assert(views_of(sorted@).take(j as int) =~= views_of(sorted@));
        return Ok(out);
    }
    let ghost plans = rec_plans(recs@);
    let ghost ks = map_keys(*plan_dir_by_key);
    let mut out: Vec<SelectionOption> = Vec::new();
    let mut i: usize = 0;
    while i < recs.len()
        invariant
            i <= recs.len(),
            recs.len() > 0,
            recs@ == response.recommended_invocation_order@,
            plans == rec_plans(recs@),
            ks == map_keys(*plan_dir_by_key),
            forall|j: int| 0 <= j < i ==> ks.contains(#[trigger] plans[j]),
            option_views(out@) == rec_views(recs@.take(i as int)),
        decreases recs.len() - i,
    {
        let rec = &recs[i];
        if !key_known(plan_dir_by_key, rec.plan.as_str()) {
            proof {
                assert(!ks.contains(plans[i as int]));
                lemma_first_unknown_is(plans, ks, i as int);
            }
            let mut v: Vec<char> = Vec::new();
            extend_str(&mut v, "survey recommended plan '");
            extend_str(&mut v, rec.plan.as_str());
            extend_str(
                &mut v,
                "' but no such plan directory was supplied on the command line. This is an LLM-drift signal — re-run the survey (delete the --survey-state file to force a cold start) and, if it recurs, check the prompt or the plan_dirs arguments.",
            );
            let e = string_of(&v);
            assert(first_unknown(rec_plans(recs@), map_keys(*plan_dir_by_key)) == Some(i as int));
            assert(rec_plans(recs@)[i as int] == rec.plan@);
            assert(e@ == drift_text(rec.plan@));
            return Err(e);
        }
        let ghost before = out@;
        out.push(SelectionOption { key: clone_string(&rec.plan), rationale: clone_string(&rec.rationale) });
        assert(option_views(out@) =~= option_views(before).push((rec.plan@, rec.rationale@)));
        assert(rec_views(recs@.take(i + 1)) =~= rec_views(recs@.take(i as int)).push((rec.plan@, rec.rationale@)));
        i += 1;
    }
    assert(recs@.take(i as int) =~= recs@);
    proof {
        if first_unknown(plans, ks) is Some {
            let w = first_unknown(plans, ks)->0;
            assert(!ks.contains(plans[w]));
        }
    }
    Ok(out)
}

/// The options for the menu, refusing an empty list (no plans at all).
pub fn selection_options(response: &SurveyResponse, plan_dir_by_key: &PlanDirMap) -> (r: Result<
    Vec<SelectionOption>,
    String,
>)
    ensures
        ({
            let recs = response.recommended_invocation_order@;
            let ks = map_keys(*plan_dir_by_key);
            if recs.len() == 0 {
                if ks.len() == 0 {
                    r matches Err(e) && e@ == empty_menu_text()
                } else {
                    r matches Ok(os) && os@.len() > 0 && fallback_options(os@, ks)
                }
            } else {
                match first_unknown(rec_plans(recs), ks) {
                    Some(i) => r matches Err(e) && e@ == drift_text(rec_plans(recs)[i]),
                    None => r matches Ok(os) && os@.len() > 0 && option_views(os@) == rec_views(recs),
                }
            }
        }),
{
    match options_from_response(response, plan_dir_by_key) {
        Err(e) => Err(e),
        Ok(os) => {
            proof {
                let ks = map_keys(*plan_dir_by_key);
                if response.recommended_invocation_order@.len() == 0 {
                    let vs = option_keys(os@);
                    if ks.len() > 0 {
                        assert(ks.to_set().contains(ks[0]));
                        assert(vs.to_set().contains(ks[0]));
                    } else if os@.len() > 0 {
                        assert(vs.to_set().contains(vs[0]));
                        assert(ks.to_set().contains(vs[0]));
                    }
                } else {
                    assert(option_views(os@).len() == rec_views(response.recommended_invocation_order@).len());
                }
            }
            if os.len() == 0 {
                return Err(
                    crate::text::owned(
                        "no plans available for selection — `plan_dir_by_key` is empty. This is a programming error in the multi-plan runner.",
                    ),
                );
            }
            Ok(os)
        },
    }
}

pub open spec fn empty_menu_text() -> Seq<char> {
    "no plans available for selection — `plan_dir_by_key` is empty. This is a programming error in the multi-plan runner."@
}

/// One menu line for option number `ordinal`.
pub open spec fn menu_line(ordinal: nat, o: (Seq<char>, Seq<char>)) -> Seq<char> {
    if o.1.len() == 0 {
        "  "@ + decimal(ordinal) + ". "@ + o.0 + "\n"@
    } else {
        "  "@ + decimal(ordinal) + ". "@ + o.0 + "  —  "@ + o.1 + "\n"@
    }
}

pub open spec fn menu_lines(os: Seq<(Seq<char>, Seq<char>)>) -> Seq<char>
    decreases os.len(),
{
    if os.len() == 0 {
        seq![]
    } else {
        menu_lines(os.drop_last()) + menu_line(os.len() as nat, os.last())
    }
}

/// The menu printed before the first prompt.
pub open spec fn menu_text(os: Seq<(Seq<char>, Seq<char>)>) -> Seq<char> {
    "\nSelect next plan to dispatch:\n"@ + menu_lines(os) + "  0. exit\n"@
}

/// Render the selection menu.
pub fn selection_menu(options: &Vec<SelectionOption>) -> (r: String)
    ensures
        r@ == menu_text(option_views(options@)),
{
    let ghost ov = option_views(options@);
    let mut v: Vec<char> = Vec::new();
    extend_str(&mut v, "\nSelect next plan to dispatch:\n");
    let ghost head = v@;
    let mut i: usize = 0;
    while i < options.len()
        invariant
            i <= options.len(),
            ov == option_views(options@),
            v@ == head + menu_lines(ov.take(i as int)),
        decreases options.len() - i,
    {
        let o = &options[i];
        assert(ov.take(i + 1).drop_last() =~= ov.take(i as int));
        assert(ov.take(i + 1).last() == ov[i as int]);
        extend_str(&mut v, "  ");
        push_decimal(&mut v, (i + 1) as u64);
        extend_str(&mut v, ". ");
        extend_str(&mut v, o.key.as_str());
        if o.rationale.as_str().is_empty() {
            extend_str(&mut v, "\n");
        } else {
            extend_str(&mut v, "  —  ");
            extend_str(&mut v, o.rationale.as_str());
            extend_str(&mut v, "\n");
        }
        assert(v@ =~= head + menu_lines(ov.take(i + 1)));
        i += 1;
    }
    assert(ov.take(i as int) =~= ov);
    extend_str(&mut v, "  0. exit\n");
    string_of(&v)
}

/// The prompt shown before each read.
pub fn selection_prompt(n_options: usize) -> (r: String)
    ensures
        r@ == "\nEnter choice (1-"@ + decimal(n_options as nat) + " or 0 to exit): "@,
{
    let mut v: Vec<char> = Vec::new();
    extend_str(&mut v, "\nEnter choice (1-");
    push_decimal(&mut v, n_options as u64);
    extend_str(&mut v, " or 0 to exit): ");
    string_of(&v)
}

/// Invalid inputs accepted before the selection gives up.
pub const MAX_INVALID_SELECTION_ATTEMPTS: usize = 3;

/// What the selection loop does with one line of input.
#[derive(Debug, Clone, PartialEq, Eq)]
pub enum SelectionStep {
    /// Leave the multi-plan run (`0`, `q`, `quit`, or end of input).
    Exit,
    /// Dispatch the option at this index.
    Pick(usize),
    /// Print the message and ask again; `attempts` invalid inputs so far.
    Retry { attempts: usize, message: String },
    /// Too many invalid inputs: fail with the message.
    GiveUp(String),
}

/// The step for a line read after `attempts` invalid inputs (`None` at
/// end of input), with `n_options` options on the menu.
pub fn selection_step(n_options: usize, attempts: usize, line: Option<&str>) -> (r: SelectionStep)
    requires
        attempts < MAX_INVALID_SELECTION_ATTEMPTS,
    ensures
        line is None ==> r == SelectionStep::Exit,
        line matches Some(l) ==> {
            let t = trim(l@);
            if eq_ignore_ascii_case(t, "q"@) || eq_ignore_ascii_case(t, "quit"@) || parse_usize_spec(t) == Some(
                0nat,
            ) {
                r == SelectionStep::Exit
            } else if parse_usize_spec(t) matches Some(k) && 1 <= k <= n_options {
                r == SelectionStep::Pick((parse_usize_spec(t)->0 - 1) as usize)
            } else if attempts + 1 >= MAX_INVALID_SELECTION_ATTEMPTS {
                r matches SelectionStep::GiveUp(m) && m@ == decimal(MAX_INVALID_SELECTION_ATTEMPTS as nat)
                    + " invalid selection attempts; aborting."@
            } else {
                r matches SelectionStep::Retry { attempts: a, message: m } && a == attempts + 1 && m@
                    == "  invalid input '"@ + t + "' — enter a number between 1 and "@ + decimal(n_options as nat)
                    + " (or 0 to exit)."@
            }
        },
        r matches SelectionStep::Retry { attempts: a, message: _ } ==> attempts < a < MAX_INVALID_SELECTION_ATTEMPTS,
        r matches SelectionStep::Pick(k) ==> k < n_options,
{
    let l = match line {
        None => return SelectionStep::Exit,
        Some(l) => l,
    };
    let lv = chars_of(l);
    let t = trim_chars(&lv);
    if eq_ignore_ascii_case_str(&t, "q") || eq_ignore_ascii_case_str(&t, "quit") {
        return SelectionStep::Exit;
    }
    match parse_usize(&t) {
        Some(0) => return SelectionStep::Exit,
        Some(n) => {
            if n >= 1 && n <= n_options {
                return SelectionStep::Pick(n - 1);
            }
        },
        None => {},
    }
    if attempts + 1 >= MAX_INVALID_SELECTION_ATTEMPTS {
        let mut v: Vec<char> = Vec::new();
        push_decimal(&mut v, MAX_INVALID_SELECTION_ATTEMPTS as u64);
        extend_str(&mut v, " invalid selection attempts; aborting.");
        return SelectionStep::GiveUp(string_of(&v));
    }
    let mut v: Vec<char> = Vec::new();
    extend_str(&mut v, "  invalid input '");
    crate::text::extend_chars(&mut v, &t);
    extend_str(&mut v, "' — enter a number between 1 and ");
    push_decimal(&mut v, n_options as u64);
    extend_str(&mut v, " (or 0 to exit).");
    SelectionStep::Retry { attempts: attempts + 1, message: string_of(&v) }
}

/// The menu entries (key, rationale) offered for a survey answer, or the
/// error that refuses it.
pub open spec fn offered(recs: Seq<Recommendation>, ks: Seq<Seq<char>>) -> Result<
    Seq<(Seq<char>, Seq<char>)>,
    Seq<char>,
> {
    if recs.len() == 0 {
        if ks.len() == 0 {
            Err(empty_menu_text())
        } else {
            Ok(sorted_set(ks).map_values(|k: Seq<char>| (k, seq![])))
        }
    } else {
        match first_unknown(rec_plans(recs), ks) {
            Some(i) => Err(drift_text(rec_plans(recs)[i])),
            None => Ok(rec_views(recs)),
        }
    }
}

proof fn lemma_options_offered(os: Seq<SelectionOption>, recs: Seq<Recommendation>, ks: Seq<Seq<char>>)
    requires
        recs.len() == 0 ==> fallback_options(os, ks),
        recs.len() != 0 ==> first_unknown(rec_plans(recs), ks) is None && option_views(os) == rec_views(recs),
        recs.len() == 0 ==> ks.len() != 0,
    ensures
        offered(recs, ks) == Ok::<Seq<(Seq<char>, Seq<char>)>, Seq<char>>(option_views(os)),
        forall|k: int| 0 <= k < os.len() ==> ks.contains(#[trigger] os[k].key@),
{
    if recs.len() == 0 {
        let s = option_keys(os);
        assert(strictly_sorted(s) && s.to_set() == ks.to_set());
        let c = sorted_set(ks);
        lemma_sorted_set_is(ks, s);
        let fallback = c.map_values(|k: Seq<char>| (k, Seq::<char>::empty()));
        assert forall|k: int| 0 <= k < os.len() implies #[trigger] option_views(os)[k] == fallback[k] by {
            assert(s[k] == os[k].key@);
            assert(os[k].rationale@ =~= seq![]);
        }
        assert(option_views(os) =~= fallback);
        assert forall|k: int| 0 <= k < os.len() implies ks.contains(#[trigger] os[k].key@) by {
            assert(s[k] == os[k].key@);
            assert(s.to_set().contains(s[k]));
        }
    } else {
        assert forall|k: int| 0 <= k < os.len() implies ks.contains(#[trigger] os[k].key@) by {
            assert(option_views(os).len() == rec_views(recs).len());
            assert(option_views(os)[k] == rec_views(recs)[k]);
            assert(rec_plans(recs)[k] == os[k].key@);
            assert(!(0 <= k < rec_plans(recs).len() && !ks.contains(rec_plans(recs)[k])));
        }
    }
}

/// A line that leaves the selection: `q`, `quit` (any case) or `0`.
pub open spec fn exit_word(t: Seq<char>) -> bool {
    eq_ignore_ascii_case(t, "q"@) || eq_ignore_ascii_case(t, "quit"@) || parse_usize_spec(t) == Some(0nat)
}

/// A line that picks one of `n` options.
pub open spec fn picks_option(n: nat, t: Seq<char>) -> bool {
    !exit_word(t) && (parse_usize_spec(t) matches Some(k) && 1 <= k <= n)
}

/// How the selection ends when the user types `lines` (then end of input)
/// after `attempts` invalid inputs: `Some(None)` exits, `Some(Some(k))`
/// picks option `k`, `None` gives up.
pub open spec fn selection_outcome(n: nat, attempts: nat, lines: Seq<Seq<char>>) -> Option<Option<nat>>
    decreases lines.len(),
{
    if lines.len() == 0 {
        Some(None)
    } else {
        let t = trim(lines[0]);
        if exit_word(t) {
            Some(None)
        } else if picks_option(n, t) {
            Some(Some((parse_usize_spec(t)->0 - 1) as nat))
        } else if attempts + 1 >= MAX_INVALID_SELECTION_ATTEMPTS {
            None
        } else {
            selection_outcome(n, attempts + 1, lines.drop_first())
        }
    }
}

pub open spec fn prompt_text(n: nat) -> Seq<char> {
    "\nEnter choice (1-"@ + decimal(n) + " or 0 to exit): "@
}

pub open spec fn retry_text(n: nat, t: Seq<char>) -> Seq<char> {
    "  invalid input '"@ + t + "' — enter a number between 1 and "@ + decimal(n) + " (or 0 to exit)."@ + "\n"@
}

pub open spec fn give_up_text() -> Seq<char> {
    decimal(MAX_INVALID_SELECTION_ATTEMPTS as nat) + " invalid selection attempts; aborting."@
}

/// What the selection prints from the first prompt on.
pub open spec fn selection_transcript(n: nat, attempts: nat, lines: Seq<Seq<char>>) -> Seq<char>
    decreases lines.len(),
{
    if lines.len() == 0 {
        prompt_text(n)
    } else {
        let t = trim(lines[0]);
        if exit_word(t) || picks_option(n, t) || attempts + 1 >= MAX_INVALID_SELECTION_ATTEMPTS {
            prompt_text(n)
        } else {
            prompt_text(n) + retry_text(n, t) + selection_transcript(n, attempts + 1, lines.drop_first())
        }
    }
}

/// Offer the plans of a survey answer as a numbered menu and read the
/// user's choice from `input`, one line per element: returns the chosen
/// plan's directory (`None` to exit) and everything printed.
pub fn select_plan_from_response(response: &SurveyResponse, plan_dir_by_key: &PlanDirMap, input: &Vec<String>) -> (r: (
    Result<Option<String>, String>,
    String,
))
    ensures
        ({
            let lines = input@.map_values(|l: String| l@);
            match offered(response.recommended_invocation_order@, map_keys(*plan_dir_by_key)) {
                Err(e) => r.0 matches Err(x) && x@ == e && r.1@.len() == 0,
                Ok(os) => {
                    &&& r.1@ == menu_text(os) + selection_transcript(os.len(), 0, lines)
                    &&& match selection_outcome(os.len(), 0, lines) {
                        None => r.0 matches Err(x) && x@ == give_up_text(),
                        Some(None) => r.0 matches Ok(None),
                        Some(Some(k)) => {
                            &&& k < os.len()
                            &&& first_index(map_keys(*plan_dir_by_key), os[k as int].0) is Some
                            &&& r.0 matches Ok(Some(d)) && d@ == map_dirs(*plan_dir_by_key)[first_index(
                                map_keys(*plan_dir_by_key),
                                os[k as int].0,
                            )->0]
                        },
                    }
                },
            }
        }),
{
    let ghost lines = input@.map_values(|l: String| l@);
    let ghost ks = map_keys(*plan_dir_by_key);
    let ghost recs = response.recommended_invocation_order@;
    let options = match selection_options(response, plan_dir_by_key) {
        Err(e) => {
            return (Err(e), String::new());
        },
        Ok(os) => os,
    };
    proof {
        lemma_options_offered(options@, recs, ks);
    }
    let ghost os = option_views(options@);
    let n = options.len();
    let mut out: Vec<char> = Vec::new();
    let menu = selection_menu(&options);
    crate::text::extend_str(&mut out, menu.as_str());
    assert(out@ == menu_text(os));
    assert(lines.subrange(0, lines.len() as int) =~= lines);
    let mut attempts: usize = 0;
    let mut i: usize = 0;
    loop
        invariant
            i <= input.len(),
            attempts == i,
            attempts < MAX_INVALID_SELECTION_ATTEMPTS,
            n == options.len(),
            n == os.len(),
            os == option_views(options@),
            lines == input@.map_values(|l: String| l@),
            ks == map_keys(*plan_dir_by_key),
            offered(response.recommended_invocation_order@, ks) == Ok::<Seq<(Seq<char>, Seq<char>)>, Seq<char>>(os),
            forall|k: int| 0 <= k < options@.len() ==> ks.contains(#[trigger] options@[k].key@),
            selection_outcome(n as nat, 0, lines) == selection_outcome(
                n as nat,
                i as nat,
                lines.subrange(i as int, lines.len() as int),
            ),
            menu_text(os) + selection_transcript(n as nat, 0, lines) == out@ + selection_transcript(
                n as nat,
                i as nat,
                lines.subrange(i as int, lines.len() as int),
            ),
        decreases input.len() - i,
    {
        let ghost rest = lines.subrange(i as int, lines.len() as int);
        let ghost before = out@;
        let prompt = selection_prompt(n);
        crate::text::extend_str(&mut out, prompt.as_str());
        assert(out@ == before + prompt_text(n as nat));
        if i == input.len() {
            assert(rest.len() == 0);
            assert(selection_transcript(n as nat, i as nat, rest) == prompt_text(n as nat));
            assert(out@ == menu_text(os) + selection_transcript(n as nat, 0, lines));
            assert(selection_outcome(n as nat, 0, lines) == Some(Option::<nat>::None));
            return (Ok(None), string_of(&out));
        }
        assert(rest[0] == input@[i as int]@);
        assert(rest.drop_first() =~= lines.subrange(i + 1, lines.len() as int));
        let step = selection_step(n, attempts, Some(input[i].as_str()));
        match step {
            SelectionStep::Exit => {
                return (Ok(None), string_of(&out));
            },
            SelectionStep::Pick(k) => {
                let key = &options[k].key;
                proof {
                    assert(ks.contains(options@[k as int].key@));
                    lemma_first_index_some_contains(ks, options@[k as int].key@);
                }
                match plan_dir_for(plan_dir_by_key, key.as_str()) {
                    Some(d) => {
                        return (Ok(Some(d)), string_of(&out));
                    },
                    None => {
                        return (Ok(None), string_of(&out));
                    },
                }
            },
            SelectionStep::GiveUp(m) => {
                return (Err(m), string_of(&out));
            },
            SelectionStep::Retry { attempts: a, message } => {
                crate::text::extend_str(&mut out, message.as_str());
                crate::text::extend_str(&mut out, "\n");
                proof {
                    let t = trim(input@[i as int]@);
                    assert(message@ + "\n"@ =~= retry_text(n as nat, t));
                    assert(selection_transcript(n as nat, i as nat, rest) == prompt_text(n as nat) + retry_text(
                        n as nat,
                        t,
                    ) + selection_transcript(n as nat, (i + 1) as nat, rest.drop_first()));
                    assert(out@ =~= before + (prompt_text(n as nat) + retry_text(n as nat, t)));
                }
                attempts = a;
                i = i + 1;
            },
        }
    }
}

} // verus!
