//! What the library keeps while tasks run: the execution scopes and the
//! decisions that start a task.

pub mod execution;
pub mod runtime;
pub mod script;

pub use execution::{
    actions_only_error, ensure_actions_scope, ActionContext, ActionScope, DirectoryChange,
    ExecutionState, ExecutionStateView, ScopeEntry,
};
pub use runtime::trigger_impl;
pub use script::{Invocation, InvocationView, ScriptEngine};
