//! Verified core of Ravel-Lite: the pure decision and text-rendering logic
//! of an orchestration loop for LLM development cycles.

pub mod text;
pub mod types;
pub mod filenames;
pub mod format;
pub mod regex_support;
pub mod backlog_transitions;
pub mod paths;
pub mod phase_loop;
pub mod clock;
pub mod pivot;
pub mod state;
pub mod projects;
pub mod order;
pub mod multi_plan;
pub mod prompt;
pub mod create;
pub mod debug_log;
pub mod git;
pub mod agent_common;
pub mod config;
pub mod related_components;
pub mod fs_probe;
pub mod dream;
pub mod json;
pub mod tool_input;
pub mod stream;
pub mod discover;
pub mod agents;
pub mod pi_setup;
pub mod yaml;
pub mod ontology;
pub mod ui_state;
pub mod cli;
