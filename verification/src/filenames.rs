//! Canonical names of the files that make up a plan directory.

use vstd::prelude::*;

verus! {

pub const PHASE_FILENAME: &'static str = "phase.md";

pub const BACKLOG_FILENAME: &'static str = "backlog.yaml";

pub const MEMORY_FILENAME: &'static str = "memory.yaml";

/// The name memory had before it became YAML; a reflect-phase write to it
/// still counts as a memory update.
pub const LEGACY_MEMORY_FILENAME: &'static str = "memory.md";

pub const LATEST_SESSION_FILENAME: &'static str = "latest-session.yaml";

pub const DREAM_WORD_COUNT_FILENAME: &'static str = "dream-word-count";

pub const RELATED_COMPONENTS_FILENAME: &'static str = "related-components.yaml";

pub const STACK_FILENAME: &'static str = "stack.yaml";

} // verus!
