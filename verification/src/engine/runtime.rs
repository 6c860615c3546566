//! What an action may ask of the engine while it runs.

use vstd::prelude::*;
use indexmap::IndexMap;
use crate::engine::execution::{actions_only_error, ExecutionState, ExecutionStateView};
use crate::engine::script::{invocation_of, invoke, Invocation, InvocationView};
use crate::error::{TaskError, TaskErrorView};
use crate::ordered_map::named_values;
use crate::task::arguments::{prepare_arguments_from_parts, prepared_arguments};
use crate::task::registry::resolver::resolve_name;
use crate::task::registry::{LookupView, RegistryView, TaskLookup, TaskRegistry};

verus! {

/// What `trigger()` of the task that a running action named `name` comes
/// to, with the `positional` and `named` values it passed.
///
/// The name is resolved first: a name that resolves to nothing or to
/// several tasks is an error. Then the values are bound to the parameters
/// of the task. Then an action must be running, and last the task must have
/// an action: a task that was found but has none is reported as such, not
/// as a task that does not exist.
pub open spec fn task_to_trigger(
    registry: RegistryView,
    state: ExecutionStateView,
    name: Seq<char>,
    positional: Seq<Seq<char>>,
    named: Seq<(Seq<char>, Seq<char>)>,
) -> Result<InvocationView, TaskErrorView> {
    match resolve_name(registry.task_paths(), name) {
        LookupView::NotFound => Err(TaskErrorView::TaskNotFound(name)),
        LookupView::Ambiguous(candidates) => Err(TaskErrorView::TaskAmbiguous { name, candidates }),
        LookupView::Found { full_path } => match prepared_arguments(
            registry.task(full_path),
            full_path,
            positional,
            named,
        ) {
            Err(error) => Err(error),
            Ok(arguments) => if !state.is_active() {
                Err(TaskErrorView::OutsideActions("trigger()"@))
            } else {
                invocation_of(registry.task(full_path), full_path, arguments)
            },
        },
    }
}

/// Decides what `trigger()` of the task `name` comes to: see
/// `task_to_trigger`.
pub fn trigger_impl(
    registry: &TaskRegistry,
    state: &ExecutionState,
    name: &str,
    positional: Vec<String>,
    named: IndexMap<String, String>,
) -> (result: Result<Invocation, TaskError>)
    ensures
        match result {
            Ok(invocation) => task_to_trigger(
                registry@,
                state@,
                name@,
                positional.deep_view(),
                named_values(named),
            ) == Ok::<InvocationView, TaskErrorView>(invocation@),
            Err(error) => task_to_trigger(
                registry@,
                state@,
                name@,
                positional.deep_view(),
                named_values(named),
            ) == Err::<InvocationView, TaskErrorView>(error@),
        },
{
    match registry.resolve_task(name) {
        TaskLookup::Found { full_path } => {
            let arguments = match prepare_arguments_from_parts(
                registry,
                full_path.as_str(),
                positional,
                named,
            ) {
                Ok(arguments) => arguments,
                Err(error) => {
                    return Err(error);
                },
            };
            if !state.is_active() {
                return Err(actions_only_error("trigger()"));
            }
            let task = registry.task(full_path.as_str());
            invoke(task, full_path, arguments)
        },
        TaskLookup::Ambiguous(candidates) => Err(
            TaskError::TaskAmbiguous { name: name.to_owned(), candidates },
        ),
        TaskLookup::NotFound => Err(TaskError::TaskNotFound(name.to_owned())),
    }
}

} // verus!
