//! Phase identifiers and plan-level records shared by the loop.

use vstd::prelude::*;

use crate::text::{push_str, str_eq};

verus! {

/// LLM phases — the agent subprocess runs these.
#[derive(Debug, Clone, Copy, PartialEq, Eq, Hash, Structural)]
pub enum LlmPhase {
    Work,
    AnalyseWork,
    Reflect,
    Dream,
    Triage,
}

/// Script phases — handled inline by the orchestrator (git commits).
#[derive(Debug, Clone, Copy, PartialEq, Eq, Hash, Structural)]
pub enum ScriptPhase {
    GitCommitWork,
    GitCommitReflect,
    GitCommitDream,
    GitCommitTriage,
}

/// A phase is either an LLM phase or a script phase.
#[derive(Debug, Clone, Copy, PartialEq, Eq, Structural)]
pub enum Phase {
    Llm(LlmPhase),
    Script(ScriptPhase),
}

/// The on-disk name of an LLM phase.
pub open spec fn llm_phase_name(p: LlmPhase) -> Seq<char> {
    match p {
        LlmPhase::Work => "work"@,
        LlmPhase::AnalyseWork => "analyse-work"@,
        LlmPhase::Reflect => "reflect"@,
        LlmPhase::Dream => "dream"@,
        LlmPhase::Triage => "triage"@,
    }
}

/// The LLM phase named `s`, if any.
pub open spec fn llm_phase_from_name(s: Seq<char>) -> Option<LlmPhase> {
    if s == "work"@ {
        Some(LlmPhase::Work)
    } else if s == "analyse-work"@ {
        Some(LlmPhase::AnalyseWork)
    } else if s == "reflect"@ {
        Some(LlmPhase::Reflect)
    } else if s == "dream"@ {
        Some(LlmPhase::Dream)
    } else if s == "triage"@ {
        Some(LlmPhase::Triage)
    } else {
        None
    }
}

/// The on-disk name of a script phase.
pub open spec fn script_phase_name(p: ScriptPhase) -> Seq<char> {
    match p {
        ScriptPhase::GitCommitWork => "git-commit-work"@,
        ScriptPhase::GitCommitReflect => "git-commit-reflect"@,
        ScriptPhase::GitCommitDream => "git-commit-dream"@,
        ScriptPhase::GitCommitTriage => "git-commit-triage"@,
    }
}

/// The script phase named `s`, if any.
pub open spec fn script_phase_from_name(s: Seq<char>) -> Option<ScriptPhase> {
    if s == "git-commit-work"@ {
        Some(ScriptPhase::GitCommitWork)
    } else if s == "git-commit-reflect"@ {
        Some(ScriptPhase::GitCommitReflect)
    } else if s == "git-commit-dream"@ {
        Some(ScriptPhase::GitCommitDream)
    } else if s == "git-commit-triage"@ {
        Some(ScriptPhase::GitCommitTriage)
    } else {
        None
    }
}

/// The on-disk name of any phase.
pub open spec fn phase_name(p: Phase) -> Seq<char> {
    match p {
        Phase::Llm(l) => llm_phase_name(l),
        Phase::Script(s) => script_phase_name(s),
    }
}

/// The phase named `s`, if any: LLM names are tried first.
pub open spec fn phase_from_name(s: Seq<char>) -> Option<Phase> {
    match llm_phase_from_name(s) {
        Some(l) => Some(Phase::Llm(l)),
        None => match script_phase_from_name(s) {
            Some(p) => Some(Phase::Script(p)),
            None => None,
        },
    }
}

impl LlmPhase {
    pub fn as_str(&self) -> (s: &'static str)
        ensures
            s@ == llm_phase_name(*self),
    {
        match self {
            LlmPhase::Work => "work",
            LlmPhase::AnalyseWork => "analyse-work",
            LlmPhase::Reflect => "reflect",
            LlmPhase::Dream => "dream",
            LlmPhase::Triage => "triage",
        }
    }

    pub fn from_str(s: &str) -> (r: Option<LlmPhase>)
        ensures
            r == llm_phase_from_name(s@),
    {
        if str_eq(s, "work") {
            Some(LlmPhase::Work)
        } else if str_eq(s, "analyse-work") {
            Some(LlmPhase::AnalyseWork)
        } else if str_eq(s, "reflect") {
            Some(LlmPhase::Reflect)
        } else if str_eq(s, "dream") {
            Some(LlmPhase::Dream)
        } else if str_eq(s, "triage") {
            Some(LlmPhase::Triage)
        } else {
            None
        }
    }

    /// The phase's name as an owned string (what `Display` prints).
    pub fn to_string(&self) -> (s: String)
        ensures
            s@ == llm_phase_name(*self),
    {
        let mut s = String::new();
        push_str(&mut s, self.as_str());
        s
    }
}

impl ScriptPhase {
    pub fn as_str(&self) -> (s: &'static str)
        ensures
            s@ == script_phase_name(*self),
    {
        match self {
            ScriptPhase::GitCommitWork => "git-commit-work",
            ScriptPhase::GitCommitReflect => "git-commit-reflect",
            ScriptPhase::GitCommitDream => "git-commit-dream",
            ScriptPhase::GitCommitTriage => "git-commit-triage",
        }
    }

    pub fn from_str(s: &str) -> (r: Option<ScriptPhase>)
        ensures
            r == script_phase_from_name(s@),
    {
        if str_eq(s, "git-commit-work") {
            Some(ScriptPhase::GitCommitWork)
        } else if str_eq(s, "git-commit-reflect") {
            Some(ScriptPhase::GitCommitReflect)
        } else if str_eq(s, "git-commit-dream") {
            Some(ScriptPhase::GitCommitDream)
        } else if str_eq(s, "git-commit-triage") {
            Some(ScriptPhase::GitCommitTriage)
        } else {
            None
        }
    }

    /// The phase's name as an owned string (what `Display` prints).
    pub fn to_string(&self) -> (s: String)
        ensures
            s@ == script_phase_name(*self),
    {
        let mut s = String::new();
        push_str(&mut s, self.as_str());
        s
    }
}

impl Phase {
    pub fn parse(s: &str) -> (r: Option<Phase>)
        ensures
            r == phase_from_name(s@),
    {
        match LlmPhase::from_str(s) {
            Some(l) => Some(Phase::Llm(l)),
            None => match ScriptPhase::from_str(s) {
                Some(p) => Some(Phase::Script(p)),
                None => None,
            },
        }
    }

    /// The phase's name as an owned string (what `Display` prints).
    pub fn to_string(&self) -> (s: String)
        ensures
            s@ == phase_name(*self),
    {
        match self {
            Phase::Llm(l) => l.to_string(),
            Phase::Script(p) => p.to_string(),
        }
    }
}

/// Every phase name parses back to the phase it names: writing a phase
/// to `phase.md` and reading it back is lossless.
pub proof fn phase_name_round_trip(p: Phase)
    ensures
        phase_from_name(phase_name(p)) == Some(p),
{
    reveal_strlit("work");
    reveal_strlit("analyse-work");
    reveal_strlit("reflect");
    reveal_strlit("dream");
    reveal_strlit("triage");
    reveal_strlit("git-commit-work");
    reveal_strlit("git-commit-reflect");
    reveal_strlit("git-commit-dream");
    reveal_strlit("git-commit-triage");
    assert("work"@.len() == 4);
    assert("analyse-work"@.len() == 12);
    assert("reflect"@.len() == 7);
    assert("dream"@.len() == 5);
    assert("triage"@.len() == 6);
    assert("git-commit-work"@.len() == 15);
    assert("git-commit-reflect"@.len() == 18);
    assert("git-commit-dream"@.len() == 16);
    assert("git-commit-triage"@.len() == 17);
}

/// Distinct phases have distinct names.
pub proof fn phase_name_injective(p: Phase, q: Phase)
    requires
        phase_name(p) == phase_name(q),
    ensures
        p == q,
{
    phase_name_round_trip(p);
    phase_name_round_trip(q);
}

/// Context for a plan execution.
#[derive(Debug, Clone)]
pub struct PlanContext {
    pub plan_dir: String,
    pub project_dir: String,
    pub dev_root: String,
    pub related_plans: String,
    pub config_root: String,
}

/// Top-level shared config (config.yaml).
#[derive(Debug)]
pub struct SharedConfig {
    pub agent: String,
    pub headroom: usize,
}

/// A subagent dispatch entry from subagent-dispatch.yaml.
#[derive(Debug)]
pub struct SubagentDispatch {
    pub target: String,
    pub kind: String,
    pub summary: String,
}

/// Status bar information.
#[derive(Debug, Clone)]
pub struct StatusInfo {
    pub project: String,
    pub plan: String,
    pub phase: String,
    pub agent: String,
    pub cycle: Option<u32>,
}

} // verus!
