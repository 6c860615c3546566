//! The engine's books: the registry, the build stack and the execution
//! state of one script, and the decision which action a command runs.
//!
//! The interpreter itself belongs to the host. The host evaluates the
//! script, drives the build stack while it does, and calls the action that
//! `run_task` hands back.

use vstd::prelude::*;
use rhai::FnPtr;
use crate::engine::execution::{ExecutionState, ExecutionStateView};
use crate::error::{TaskError, TaskErrorView};
use crate::printer::{printed, Line};
use crate::task::arguments::{prepare_arguments_from_cli, prepared_from_tokens};
use crate::task::display::{listing, ListRenderMode};
use crate::task::model::{Task, TaskView};
use crate::task::registry::resolver::resolve_name;
use crate::task::registry::{LookupView, RegistryView, TaskLookup, TaskRegistry};
use crate::task::stack::{BuildStack, BuildStackView, FrameView};

verus! {

/// An action that is to be called: the task it belongs to, the handle of
/// the action, the values to call it with and the directory to run it in.
#[derive(Debug)]
pub struct Invocation {
    pub full_path: String,
    pub action: FnPtr,
    pub arguments: Vec<String>,
    pub working_dir: Option<String>,
}

/// What an `Invocation` holds, as plain text and the opaque action handle.
pub struct InvocationView {
    pub full_path: Seq<char>,
    pub action: FnPtr,
    pub arguments: Seq<Seq<char>>,
    pub working_dir: Option<Seq<char>>,
}

impl View for Invocation {
    type V = InvocationView;

    open spec fn view(&self) -> InvocationView {
        InvocationView {
            full_path: self.full_path@,
            action: self.action,
            arguments: self.arguments.deep_view(),
            working_dir: self.working_dir.deep_view(),
        }
    }
}

/// The call of the task stored under `full_path` with `arguments`, or the
/// error that the task has no action.
pub open spec fn invocation_of(
    task: Option<TaskView>,
    full_path: Seq<char>,
    arguments: Seq<Seq<char>>,
) -> Result<InvocationView, TaskErrorView> {
    match task {
        Some(task) if task.actions is Some => Ok(
            InvocationView {
                full_path,
                action: task.actions->0,
                arguments,
                working_dir: task.working_dir,
            },
        ),
        _ => Err(TaskErrorView::ActionsMissing(full_path)),
    }
}

/// What running the task that the user named `name` with the command-line
/// tokens `tokens` comes to.
///
/// The name is resolved first: a name that resolves to nothing or to
/// several tasks is an error. Then the tokens are bound to the parameters
/// of the task. Then a script must have been loaded, and last the task must
/// have an action.
pub open spec fn task_to_run(
    registry: RegistryView,
    script_loaded: bool,
    name: Seq<char>,
    tokens: Seq<Seq<char>>,
) -> Result<InvocationView, TaskErrorView> {
    match resolve_name(registry.task_paths(), name) {
        LookupView::NotFound => Err(TaskErrorView::TaskNotFound(name)),
        LookupView::Ambiguous(candidates) => Err(TaskErrorView::TaskAmbiguous { name, candidates }),
        LookupView::Found { full_path } => match prepared_from_tokens(
            registry.task(full_path),
            full_path,
            tokens,
        ) {
            Err(error) => Err(error),
            Ok(arguments) => if !script_loaded {
                Err(TaskErrorView::ScriptNotLoaded)
            } else {
                invocation_of(registry.task(full_path), full_path, arguments)
            },
        },
    }
}

/// The call of `task`, stored under `full_path`, with `arguments`.
pub fn invoke(task: Option<&Task>, full_path: String, arguments: Vec<String>) -> (result: Result<
    Invocation,
    TaskError,
>)
    ensures
        match result {
            Ok(invocation) => invocation_of(task.deep_view(), full_path@, arguments.deep_view())
                == Ok::<InvocationView, TaskErrorView>(invocation@),
            Err(error) => invocation_of(task.deep_view(), full_path@, arguments.deep_view())
                == Err::<InvocationView, TaskErrorView>(error@),
        },
{
    match task {
        Some(task) => match &task.actions {
            Some(action) => Ok(
                Invocation {
                    full_path,
                    action: action.clone(),
                    arguments,
                    working_dir: task.working_dir.clone(),
                },
            ),
            None => Err(TaskError::ActionsMissing(full_path)),
        },
        None => Err(TaskError::ActionsMissing(full_path)),
    }
}

/// The books of one script: what it declared, what is being declared, and
/// what is running.
pub struct ScriptEngine {
    pub registry: TaskRegistry,
    pub exec_state: ExecutionState,
    pub build_stack: BuildStack,
    /// Whether a script was evaluated to its end.
    pub script_loaded: bool,
}

impl ScriptEngine {
    /// The books of a process started in `base_dir`: nothing declared,
    /// nothing running, no script loaded.
    pub fn new(base_dir: String) -> (engine: Self)
        ensures
            engine.registry@ == RegistryView::empty(),
            engine.exec_state@ == (ExecutionStateView {
                contexts: Seq::empty(),
                base_dir: base_dir@,
            }),
            engine.build_stack.wf(),
            engine.build_stack@ == (BuildStackView {
                frames: seq![FrameView::Root],
                script_root: None,
            }),
            !engine.script_loaded,
    {
        ScriptEngine {
            registry: TaskRegistry::new(),
            exec_state: ExecutionState::new(base_dir),
            build_stack: BuildStack::new(),
            script_loaded: false,
        }
    }

    /// Makes ready for the evaluation of a script that lies in
    /// `script_root`: every scope left open is closed and the directory is
    /// recorded for tasks that ask for one by a relative path.
    pub fn run_script(&mut self, script_root: String)
        ensures
            final(self).build_stack.wf(),
            final(self).build_stack@ == (BuildStackView {
                frames: seq![FrameView::Root],
                script_root: Some(script_root@),
            }),
            final(self).registry@ == old(self).registry@,
            final(self).exec_state@ == old(self).exec_state@,
            final(self).script_loaded == old(self).script_loaded,
    {
        self.build_stack.reset();
        self.build_stack.set_script_root(script_root);
    }

    /// Records that the script was evaluated to its end, so that its tasks
    /// can be run.
    pub fn script_evaluated(&mut self)
        ensures
            final(self).script_loaded,
            final(self).build_stack == old(self).build_stack,
            final(self).registry == old(self).registry,
            final(self).exec_state == old(self).exec_state,
    {
        self.script_loaded = true;
    }

    /// Decides what running the task `name` with the command-line tokens
    /// `raw_args` comes to: see `task_to_run`.
    pub fn run_task(&self, name: &str, raw_args: &[String]) -> (result: Result<
        Invocation,
        TaskError,
    >)
        ensures
            match result {
                Ok(invocation) => task_to_run(
                    self.registry@,
                    self.script_loaded,
                    name@,
                    raw_args.deep_view(),
                ) == Ok::<InvocationView, TaskErrorView>(invocation@),
                Err(error) => task_to_run(
                    self.registry@,
                    self.script_loaded,
                    name@,
                    raw_args.deep_view(),
                ) == Err::<InvocationView, TaskErrorView>(error@),
            },
    {
        match self.registry.resolve_task(name) {
            TaskLookup::Found { full_path } => {
                let arguments = match prepare_arguments_from_cli(
                    &self.registry,
                    full_path.as_str(),
                    raw_args,
                ) {
                    Ok(arguments) => arguments,
                    Err(error) => {
                        return Err(error);
                    },
                };
                if !self.script_loaded {
                    return Err(TaskError::ScriptNotLoaded);
                }
                let task = self.registry.task(full_path.as_str());
                invoke(task, full_path, arguments)
            },
            TaskLookup::NotFound => Err(TaskError::TaskNotFound(name.to_owned())),
            TaskLookup::Ambiguous(candidates) => Err(
                TaskError::TaskAmbiguous { name: name.to_owned(), candidates },
            ),
        }
    }

    /// The lines that list the tasks of the script, or those of the group
    /// `group`: flat or as a tree.
    pub fn list_tasks(&self, group: Option<&str>, flat: bool, use_color: bool) -> (lines: Vec<Line>)
        ensures
            lines.deep_view() == printed(
                listing(self.registry@, group.deep_view()),
                if flat {
                    ListRenderMode::Flat
                } else {
                    ListRenderMode::Tree
                },
                use_color,
            ),
    {
        let mode = if flat {
            ListRenderMode::Flat
        } else {
            ListRenderMode::Tree
        };
        self.registry.list(group, mode, use_color)
    }

    /// The default task of the script, if it set one.
    pub fn default_task(&self) -> (name: Option<String>)
        ensures
            name.deep_view() == self.registry@.default_task,
    {
        self.registry.default_task()
    }
}

} // verus!
