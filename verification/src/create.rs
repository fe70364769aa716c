//! Interactive plan creation: the prompt handed to the interactive agent
//! session, the checks on the target directory, and the files scaffolded
//! before the session starts. Spawning the session and touching the file
//! system belong to the binary.

use vstd::prelude::*;

use crate::filenames::{BACKLOG_FILENAME, DREAM_WORD_COUNT_FILENAME, MEMORY_FILENAME, PHASE_FILENAME};
use crate::paths::{parent_of, path_parent};
use crate::text::{extend_str, owned, string_of};

verus! {

/// Relative path to the create-plan prompt template inside a config dir.
pub const CREATE_PLAN_PROMPT_PATH: &'static str = "create-plan.md";

/// The instructions appended after the template, around the target path.
pub open spec fn create_instructions(target: Seq<char>) -> Seq<char> {
    "\n\n---\n\nCreate a new plan at this absolute path:\n\n  "@ + target
        + "\n\nThe directory does not exist yet. Create it, then create the plan files inside it according to the conventions above. When the plan is ready, confirm with the user by listing what you created.\n\nINVARIANT: Your ONLY output from this session is a plan directory at "@
        + target
        + ". If the user's description sounds like a single concrete task (a bug report, a feature request, a specific question), that is the plan's initial task — capture it in the backlog and scaffold the plan around it. A single-task plan is a valid plan. Do not attempt to do the work the user described; your job is to write plan files, not to solve the problem they described.\n"@
}

/// Compose the full prompt from the template and the target plan path.
pub fn compose_create_prompt(template: &str, abs_plan_dir: &str) -> (r: String)
    ensures
        r@ == template@ + create_instructions(abs_plan_dir@),
{
    let mut v: Vec<char> = Vec::new();
    extend_str(&mut v, template);
    extend_str(&mut v, "\n\n---\n\nCreate a new plan at this absolute path:\n\n  ");
    extend_str(&mut v, abs_plan_dir);
    extend_str(
        &mut v,
        "\n\nThe directory does not exist yet. Create it, then create the plan files inside it according to the conventions above. When the plan is ready, confirm with the user by listing what you created.\n\nINVARIANT: Your ONLY output from this session is a plan directory at ",
    );
    extend_str(&mut v, abs_plan_dir);
    extend_str(
        &mut v,
        ". If the user's description sounds like a single concrete task (a bug report, a feature request, a specific question), that is the plan's initial task — capture it in the backlog and scaffold the plan around it. A single-task plan is a valid plan. Do not attempt to do the work the user described; your job is to write plan files, not to solve the problem they described.\n",
    );
    string_of(&v)
}

/// What the file system says about the target and its parent.
pub struct TargetProbe {
    pub target_exists: bool,
    pub parent_exists: bool,
    pub parent_is_dir: bool,
}

/// The verdict on a target path: the error, or whether the parent
/// directory must be created first.
pub open spec fn target_verdict(abs: Seq<char>, p: TargetProbe) -> Result<bool, Seq<char>> {
    if p.target_exists {
        Err("Plan directory "@ + abs + " already exists. create will not overwrite an existing plan."@)
    } else {
        match path_parent(abs) {
            None => Err("Plan path "@ + abs + " has no parent directory"@),
            Some(parent) => if p.parent_exists && !p.parent_is_dir {
                Err("Parent path "@ + parent + " exists but is not a directory."@)
            } else {
                Ok(!p.parent_exists)
            },
        }
    }
}

/// Check the absolute target path. `Ok(true)` asks the caller to create
/// the missing parent directories before going on.
pub fn validate_target(abs_plan_dir: &str, probe: &TargetProbe) -> (r: Result<bool, String>)
    ensures
        match r {
            Ok(b) => target_verdict(abs_plan_dir@, *probe) == Ok::<bool, Seq<char>>(b),
            Err(e) => target_verdict(abs_plan_dir@, *probe) == Err::<bool, Seq<char>>(e@),
        },
{
    if probe.target_exists {
        let mut v: Vec<char> = Vec::new();
        extend_str(&mut v, "Plan directory ");
        extend_str(&mut v, abs_plan_dir);
        extend_str(&mut v, " already exists. create will not overwrite an existing plan.");
        return Err(string_of(&v));
    }
    match parent_of(abs_plan_dir) {
        None => {
            let mut v: Vec<char> = Vec::new();
            extend_str(&mut v, "Plan path ");
            extend_str(&mut v, abs_plan_dir);
            extend_str(&mut v, " has no parent directory");
            Err(string_of(&v))
        },
        Some(parent) => {
            if probe.parent_exists && !probe.parent_is_dir {
                let mut v: Vec<char> = Vec::new();
                extend_str(&mut v, "Parent path ");
                extend_str(&mut v, parent.as_str());
                extend_str(&mut v, " exists but is not a directory.");
                return Err(string_of(&v));
            }
            Ok(!probe.parent_exists)
        },
    }
}

/// The files every new plan directory starts with, as (file name,
/// contents): `phase.md` at `work`, an empty backlog, an empty memory,
/// and a zero dream word count.
pub fn scaffold_files() -> (r: Vec<(String, String)>)
    ensures
        r@.len() == 4,
        r@[0].0@ == PHASE_FILENAME@ && r@[0].1@ == "work\n"@,
        r@[1].0@ == BACKLOG_FILENAME@ && r@[1].1@ == "tasks: []\n"@,
        r@[2].0@ == MEMORY_FILENAME@ && r@[2].1@ == "entries: []\n"@,
        r@[3].0@ == DREAM_WORD_COUNT_FILENAME@ && r@[3].1@ == "0"@,
{
    let mut r: Vec<(String, String)> = Vec::new();
    r.push((owned(PHASE_FILENAME), owned("work\n")));
    r.push((owned(BACKLOG_FILENAME), owned("tasks: []\n")));
    r.push((owned(MEMORY_FILENAME), owned("entries: []\n")));
    r.push((owned(DREAM_WORD_COUNT_FILENAME), owned("0")));
    r
}

} // verus!
