//! The tool execution engine of a developer-tooling orchestrator: patterns
//! that select files and pick diagnostics out of tool output, the report
//! that collects and renders those diagnostics, and the decisions around
//! running a tool's steps (what a process is started with, how its output
//! and its end are judged, how the outcomes of the steps add up).
use vstd::prelude::*;

pub mod text;
pub mod report;
pub mod order;
pub mod errors;
pub mod pattern;
pub mod render;
pub mod vars;
pub mod digest;
pub mod config;
pub mod command;
pub mod env;
pub mod runtime;
pub mod tools;
pub mod diff;

verus! {

} // verus!
