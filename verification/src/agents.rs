//! The agent CLIs the loop drives, and the argument lists it hands them.
//!
//! An agent is named in `config.yaml`. `pi` drives the pi CLI in JSON
//! mode; a name of the form `<program>-code` drives `<program>` in
//! stream-JSON mode. Each agent's `config.yaml` gives per-phase models,
//! thinking levels and parameters.

use vstd::prelude::*;

use crate::text::{clone_string, extend_str, owned, str_eq, string_of};
use crate::types::{llm_phase_name, LlmPhase};

verus! {

/// Per-agent configuration: models and thinking levels by phase name,
/// the `dangerous` parameter by phase name (as the YAML gave it, when it
/// is a boolean), and the provider.
#[derive(Debug, Clone)]
pub struct AgentConfig {
    pub models: Vec<(String, String)>,
    pub thinking: Vec<(String, String)>,
    pub dangerous: Vec<(String, Option<bool>)>,
    pub provider: Option<String>,
}

/// Which CLI an agent drives.
#[derive(Debug, Clone, PartialEq, Eq)]
pub enum AgentKind {
    /// `<program>-code`: the program in stream-JSON mode.
    StreamJson { program: String },
    /// `pi`.
    Pi,
}

pub open spec fn ends_with_code(s: Seq<char>) -> bool {
    s.len() > 5 && s.subrange(s.len() - 5, s.len() as int) == "-code"@
}

/// The kind of the agent named `agent`, if it is one the loop can drive.
pub open spec fn agent_kind_of(agent: Seq<char>) -> Option<(bool, Seq<char>)> {
    if agent == "pi"@ {
        Some((false, "pi"@))
    } else if ends_with_code(agent) {
        Some((true, agent.subrange(0, agent.len() - 5)))
    } else {
        None
    }
}

pub fn agent_kind(agent: &str) -> (r: Result<AgentKind, String>)
    ensures
        match agent_kind_of(agent@) {
            Some((true, p)) => r matches Ok(AgentKind::StreamJson { program }) && program@ == p,
            Some((false, _)) => r matches Ok(AgentKind::Pi),
            None => r matches Err(e) && e@ == "Unknown agent: "@ + agent@,
        },
{
    proof {
        reveal_strlit("-code");
    }
    if str_eq(agent, "pi") {
        return Ok(AgentKind::Pi);
    }
    let v = crate::text::chars_of(agent);
    let n = v.len();
    if n > 5 && v[n - 5] == '-' && v[n - 4] == 'c' && v[n - 3] == 'o' && v[n - 2] == 'd' && v[n - 1] == 'e' {
        assert(v@.subrange(n - 5, n as int) =~= "-code"@);
        let p = crate::text::slice_chars(&v, 0, n - 5);
        return Ok(AgentKind::StreamJson { program: string_of(&p) });
    }
    proof {
        if ends_with_code(agent@) {
            let t = agent@.subrange(agent@.len() - 5, agent@.len() as int);
            assert(t[0] == '-' && t[1] == 'c' && t[2] == 'o' && t[3] == 'd' && t[4] == 'e');
        }
    }
    let mut m: Vec<char> = Vec::new();
    extend_str(&mut m, "Unknown agent: ");
    extend_str(&mut m, agent);
    Err(string_of(&m))
}

pub open spec fn pair_lookup(ps: Seq<(String, String)>, key: Seq<char>) -> Option<Seq<char>>
    decreases ps.len(),
{
    if ps.len() == 0 {
        None
    } else if ps[0].0@ == key {
        Some(ps[0].1@)
    } else {
        pair_lookup(ps.skip(1), key)
    }
}

fn lookup(ps: &Vec<(String, String)>, key: &str) -> (r: Option<String>)
    ensures
        match pair_lookup(ps@, key@) {
            Some(v) => r matches Some(x) && x@ == v,
            None => r is None,
        },
{
    let mut i: usize = 0;
    assert(ps@.skip(0) =~= ps@);
    while i < ps.len()
        invariant
            i <= ps.len(),
            pair_lookup(ps@, key@) == pair_lookup(ps@.skip(i as int), key@),
        decreases ps.len() - i,
    {
        assert(ps@.skip(i as int)[0] == ps@[i as int]);
        assert(ps@.skip(i as int).skip(1) =~= ps@.skip(i + 1));
        if str_eq(ps[i].0.as_str(), key) {
            return Some(clone_string(&ps[i].1));
        }
        i += 1;
    }
    None
}

pub open spec fn flag_lookup(ps: Seq<(String, Option<bool>)>, key: Seq<char>) -> Option<Option<bool>>
    decreases ps.len(),
{
    if ps.len() == 0 {
        None
    } else if ps[0].0@ == key {
        Some(ps[0].1)
    } else {
        flag_lookup(ps.skip(1), key)
    }
}

/// Whether `dangerous: true` is set for the phase.
pub open spec fn dangerous_for(c: AgentConfig, phase: Seq<char>) -> bool {
    flag_lookup(c.dangerous@, phase) == Some(Some(true))
}

pub fn is_dangerous(config: &AgentConfig, phase: &str) -> (r: bool)
    ensures
        r == dangerous_for(*config, phase@),
{
    let ps = &config.dangerous;
    let mut i: usize = 0;
    assert(ps@.skip(0) =~= ps@);
    while i < ps.len()
        invariant
            i <= ps.len(),
            *ps == config.dangerous,
            flag_lookup(ps@, phase@) == flag_lookup(ps@.skip(i as int), phase@),
        decreases ps.len() - i,
    {
        assert(ps@.skip(i as int)[0] == ps@[i as int]);
        assert(ps@.skip(i as int).skip(1) =~= ps@.skip(i + 1));
        if str_eq(ps[i].0.as_str(), phase) {
            return match ps[i].1 {
                Some(b) => b,
                None => false,
            };
        }
        i += 1;
    }
    false
}

/// `dangerous: true` for every LLM phase, whatever the file said.
pub fn force_dangerous(config: &mut AgentConfig)
    ensures
        forall|p: LlmPhase| #[trigger] dangerous_for(*final(config), llm_phase_name(p)),
        final(config).models@ == old(config).models@,
        final(config).thinking@ == old(config).thinking@,
        final(config).provider == old(config).provider,
{
    let mut d: Vec<(String, Option<bool>)> = Vec::new();
    d.push((owned("work"), Some(true)));
    d.push((owned("analyse-work"), Some(true)));
    d.push((owned("reflect"), Some(true)));
    d.push((owned("dream"), Some(true)));
    d.push((owned("triage"), Some(true)));
    config.dangerous = d;
    proof {
        reveal_strlit("work");
        reveal_strlit("analyse-work");
        reveal_strlit("reflect");
        reveal_strlit("dream");
        reveal_strlit("triage");
        reveal_with_fuel(flag_lookup, 6);
        assert forall|p: LlmPhase| #[trigger] dangerous_for(*config, llm_phase_name(p)) by {
            let ps = config.dangerous@;
            assert(ps[0].0@ == "work"@);
            assert(ps[1].0@ == "analyse-work"@);
            assert(ps[2].0@ == "reflect"@);
            assert(ps[3].0@ == "dream"@);
            assert(ps[4].0@ == "triage"@);
            assert("work"@.len() == 4 && "analyse-work"@.len() == 12 && "reflect"@.len() == 7);
            assert("dream"@.len() == 5 && "triage"@.len() == 6);
            assert(ps.skip(1).skip(1).skip(1).skip(1).skip(1).len() == 0);
            match p {
                LlmPhase::Work => {},
                LlmPhase::AnalyseWork => {
                    assert(ps.skip(1)[0] == ps[1]);
                },
                LlmPhase::Reflect => {
                    assert(ps.skip(1).skip(1)[0] == ps[2]);
                },
                LlmPhase::Dream => {
                    assert(ps.skip(1).skip(1).skip(1)[0] == ps[3]);
                },
                LlmPhase::Triage => {
                    assert(ps.skip(1).skip(1).skip(1).skip(1)[0] == ps[4]);
                },
            }
        }
    }
}

pub open spec fn strs(v: Seq<String>) -> Seq<Seq<char>> {
    v.map_values(|s: String| s@)
}

/// `--model <m>` when the phase has a non-empty model.
pub open spec fn model_args(c: AgentConfig, phase: Seq<char>) -> Seq<Seq<char>> {
    match pair_lookup(c.models@, phase) {
        Some(m) => if m.len() > 0 {
            seq!["--model"@, m]
        } else {
            seq![]
        },
        None => seq![],
    }
}

/// Headless arguments of the stream-JSON CLI for a phase.
pub open spec fn stream_json_args(c: AgentConfig, prompt: Seq<char>, phase: LlmPhase, plan_dir: Seq<char>) -> Seq<
    Seq<char>,
> {
    seq![
        "--strict-mcp-config"@,
        "-p"@,
        prompt,
        "--verbose"@,
        "--output-format"@,
        "stream-json"@,
        "--add-dir"@,
        plan_dir,
    ] + model_args(c, llm_phase_name(phase)) + if dangerous_for(c, llm_phase_name(phase)) {
        seq!["--dangerously-skip-permissions"@]
    } else {
        seq![]
    }
}

fn push_model_args(args: &mut Vec<String>, config: &AgentConfig, phase: &str)
    ensures
        strs(final(args)@) == strs(old(args)@) + model_args(*config, phase@),
{
    match lookup(&config.models, phase) {
        Some(m) => {
            if m.as_str().is_empty() {
                assert(strs(args@) =~= strs(old(args)@) + model_args(*config, phase@));
            } else {
                let ghost before = args@;
                args.push(owned("--model"));
                args.push(m);
                assert(strs(args@) =~= strs(before) + model_args(*config, phase@));
            }
        },
        None => {
            assert(strs(args@) =~= strs(old(args)@) + model_args(*config, phase@));
        },
    }
}

fn push_all(args: &mut Vec<String>, items: &[&str])
    ensures
        strs(final(args)@) == strs(old(args)@) + items@.map_values(|s: &str| s@),
{
    let mut i: usize = 0;
    let ghost start = strs(args@);
    while i < items.len()
        invariant
            i <= items.len(),
            strs(args@) == start + items@.take(i as int).map_values(|s: &str| s@),
        decreases items.len() - i,
    {
        let ghost before = args@;
        args.push(owned(items[i]));
        assert(strs(args@) =~= strs(before).push(items@[i as int]@));
        assert(items@.take(i + 1).map_values(|s: &str| s@) =~= items@.take(i as int).map_values(|s: &str| s@).push(
            items@[i as int]@,
        ));
        i += 1;
    }
    assert(items@.take(i as int) =~= items@);
}

pub fn stream_json_headless_args(config: &AgentConfig, prompt: &str, phase: LlmPhase, plan_dir: &str) -> (r: Vec<
    String,
>)
    ensures
        strs(r@) == stream_json_args(*config, prompt@, phase, plan_dir@),
{
    let mut args: Vec<String> = Vec::new();
    push_all(&mut args, &["--strict-mcp-config", "-p", prompt, "--verbose", "--output-format", "stream-json", "--add-dir", plan_dir]);
    let ghost base = strs(args@);
    push_model_args(&mut args, config, phase.as_str());
    if is_dangerous(config, phase.as_str()) {
        let ghost before = args@;
        args.push(owned("--dangerously-skip-permissions"));
        assert(strs(args@) =~= strs(before).push("--dangerously-skip-permissions"@));
    }
    assert(strs(args@) =~= stream_json_args(*config, prompt@, phase, plan_dir@));
    args
}

/// Interactive arguments of the stream-JSON CLI for the work phase: the
/// plan directory, the work model, permissions, a debug file, the prompt.
pub open spec fn stream_json_interactive(c: AgentConfig, prompt: Seq<char>, plan_dir: Seq<char>, debug_file: Seq<char>) -> Seq<
    Seq<char>,
> {
    seq!["--add-dir"@, plan_dir] + model_args(c, "work"@) + if dangerous_for(c, "work"@) {
        seq!["--dangerously-skip-permissions"@]
    } else {
        seq![]
    } + seq!["--debug-file"@, debug_file, prompt]
}

pub fn stream_json_interactive_args(config: &AgentConfig, prompt: &str, plan_dir: &str, debug_file: &str) -> (r: Vec<
    String,
>)
    ensures
        strs(r@) == stream_json_interactive(*config, prompt@, plan_dir@, debug_file@),
{
    let mut args: Vec<String> = Vec::new();
    push_all(&mut args, &["--add-dir", plan_dir]);
    push_model_args(&mut args, config, "work");
    if is_dangerous(config, "work") {
        let ghost before = args@;
        args.push(owned("--dangerously-skip-permissions"));
        assert(strs(args@) =~= strs(before).push("--dangerously-skip-permissions"@));
    }
    let ghost mid = strs(args@);
    push_all(&mut args, &["--debug-file", debug_file, prompt]);
    assert(strs(args@) =~= stream_json_interactive(*config, prompt@, plan_dir@, debug_file@));
    args
}

/// The debug file handed to an interactive session of `program`.
pub fn debug_file_for(program: &str) -> (r: String)
    ensures
        r@ == "/tmp/"@ + program@ + "-debug.log"@,
{
    let mut v: Vec<char> = Vec::new();
    extend_str(&mut v, "/tmp/");
    extend_str(&mut v, program);
    extend_str(&mut v, "-debug.log");
    string_of(&v)
}

/// Headless arguments of the pi CLI for a phase.
pub open spec fn pi_args(c: AgentConfig, prompt: Seq<char>, phase: LlmPhase, system_prompt: Seq<char>) -> Seq<Seq<char>> {
    seq![
        "--no-session"@,
        "--append-system-prompt"@,
        system_prompt,
        "--provider"@,
        match c.provider {
            Some(p) => p@,
            None => "anthropic"@,
        },
    ] + model_args(c, llm_phase_name(phase)) + seq!["--mode"@, "json"@, "-p"@, prompt] + match pair_lookup(
        c.thinking@,
        llm_phase_name(phase),
    ) {
        Some(t) => if t.len() > 0 {
            seq!["--thinking"@, t]
        } else {
            seq![]
        },
        None => seq![],
    }
}

pub fn pi_headless_args(config: &AgentConfig, prompt: &str, phase: LlmPhase, system_prompt: &str) -> (r: Vec<String>)
    ensures
        strs(r@) == pi_args(*config, prompt@, phase, system_prompt@),
{
    let provider = match &config.provider {
        Some(p) => clone_string(p),
        None => owned("anthropic"),
    };
    let mut args: Vec<String> = Vec::new();
    push_all(&mut args, &["--no-session", "--append-system-prompt", system_prompt, "--provider", provider.as_str()]);
    push_model_args(&mut args, config, phase.as_str());
    push_all(&mut args, &["--mode", "json", "-p", prompt]);
    let ghost mid = strs(args@);
    match lookup(&config.thinking, phase.as_str()) {
        Some(t) => {
            if !t.as_str().is_empty() {
                let ghost before = args@;
                args.push(owned("--thinking"));
                args.push(t);
                assert(strs(args@) =~= strs(before) + seq!["--thinking"@, t@]);
            }
        },
        None => {},
    }
    assert(strs(args@) =~= pi_args(*config, prompt@, phase, system_prompt@));
    args
}

/// The prompt for a subagent that carries learnings over to a related plan.
pub open spec fn subagent_prompt_text(target: Seq<char>, kind: Seq<char>, summary: Seq<char>) -> Seq<char> {
    "Plan at "@ + target + ".\nThis is a "@ + kind + " plan that may be affected by recent learnings.\n\nSummary of learnings to apply:\n"@
        + summary
        + "\n\nRead the target plan's backlog.md and memory.md.\nApply relevant updates: add/modify tasks in backlog.md, update memory.md if needed.\nBe conservative — only change what the summary warrants."@
}

pub fn build_subagent_prompt(dispatch: &crate::types::SubagentDispatch) -> (r: String)
    ensures
        r@ == subagent_prompt_text(dispatch.target@, dispatch.kind@, dispatch.summary@),
{
    let mut v: Vec<char> = Vec::new();
    extend_str(&mut v, "Plan at ");
    extend_str(&mut v, dispatch.target.as_str());
    extend_str(&mut v, ".\nThis is a ");
    extend_str(&mut v, dispatch.kind.as_str());
    extend_str(&mut v, " plan that may be affected by recent learnings.\n\nSummary of learnings to apply:\n");
    extend_str(&mut v, dispatch.summary.as_str());
    extend_str(
        &mut v,
        "\n\nRead the target plan's backlog.md and memory.md.\nApply relevant updates: add/modify tasks in backlog.md, update memory.md if needed.\nBe conservative — only change what the summary warrants.",
    );
    string_of(&v)
}

/// The arguments of an interactive `pi` work session: the whole prompt
/// rides in the system prompt; the work phase's model and thinking level
/// apply.
pub open spec fn pi_interactive(c: AgentConfig, full_prompt: Seq<char>) -> Seq<Seq<char>> {
    seq![
        "--no-session"@,
        "--append-system-prompt"@,
        full_prompt,
        "--provider"@,
        match c.provider {
            Some(p) => p@,
            None => "anthropic"@,
        },
    ] + model_args(c, "work"@) + match pair_lookup(c.thinking@, "work"@) {
        Some(t) => if t.len() > 0 {
            seq!["--thinking"@, t]
        } else {
            seq![]
        },
        None => seq![],
    }
}

/// The system prompt, the memory prompt and the phase prompt, separated by
/// blank lines.
pub open spec fn pi_full_prompt(system: Seq<char>, memory: Seq<char>, prompt: Seq<char>) -> Seq<char> {
    system + "\n\n"@ + memory + "\n\n"@ + prompt
}

pub fn pi_interactive_args(config: &AgentConfig, system_prompt: &str, memory_prompt: &str, prompt: &str) -> (r: Vec<String>)
    ensures
        strs(r@) == pi_interactive(*config, pi_full_prompt(system_prompt@, memory_prompt@, prompt@)),
{
    let mut full: Vec<char> = Vec::new();
    extend_str(&mut full, system_prompt);
    extend_str(&mut full, "\n\n");
    extend_str(&mut full, memory_prompt);
    extend_str(&mut full, "\n\n");
    extend_str(&mut full, prompt);
    let full = string_of(&full);
    let provider = match &config.provider {
        Some(p) => clone_string(p),
        None => owned("anthropic"),
    };
    let mut args: Vec<String> = Vec::new();
    push_all(&mut args, &["--no-session", "--append-system-prompt", full.as_str(), "--provider", provider.as_str()]);
    push_model_args(&mut args, config, "work");
    let ghost mid = strs(args@);
    match lookup(&config.thinking, "work") {
        Some(t) => {
            if !t.as_str().is_empty() {
                let ghost before = args@;
                args.push(owned("--thinking"));
                args.push(t);
                assert(strs(args@) =~= strs(before) + seq!["--thinking"@, t@]);
            }
        },
        None => {},
    }
    assert(strs(args@) =~= pi_interactive(*config, pi_full_prompt(system_prompt@, memory_prompt@, prompt@)));
    args
}

pub open spec fn missing_work_model_text() -> Seq<char> {
    "Agent config is missing a `models.work` entry; cannot select a model for create."@
}

/// The arguments of the interactive session that creates a plan: the
/// prompt, the work phase's model and the plan's parent directory. The
/// work model must be configured.
pub fn create_session_args(config: &AgentConfig, prompt: &str, parent_dir: &str) -> (r: Result<Vec<String>, String>)
    ensures
        match pair_lookup(config.models@, "work"@) {
            None => r matches Err(e) && e@ == missing_work_model_text(),
            Some(m) => r matches Ok(v) && strs(v@) == seq![prompt@, "--model"@, m, "--add-dir"@, parent_dir@],
        },
{
    match lookup(&config.models, "work") {
        None => Err(owned("Agent config is missing a `models.work` entry; cannot select a model for create.")),
        Some(m) => {
            let mut args: Vec<String> = Vec::new();
            args.push(owned(prompt));
            args.push(owned("--model"));
            args.push(m);
            args.push(owned("--add-dir"));
            args.push(owned(parent_dir));
            assert(strs(args@) =~= seq![prompt@, "--model"@, pair_lookup(config.models@, "work"@)->0, "--add-dir"@, parent_dir@]);
            Ok(args)
        },
    }
}

} // verus!
