//! Construction and resolution core of a hierarchical task runner: a
//! registry of named, nestable tasks and groups, the state machine that
//! builds it, name resolution, argument binding and execution scopes.

pub mod cli;
pub mod completions;
pub mod engine;
pub mod error;
pub mod ordered_map;
pub mod printer;
pub mod task;
pub mod text;

pub use cli::run_with_cli;
