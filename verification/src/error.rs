//! The errors that the library reports, each with the text shown to the
//! user.

use vstd::prelude::*;
use crate::text::framed;

verus! {

/// Why a call was rejected.
#[derive(Debug)]
pub enum TaskError {
    /// `task()` was given a blank name.
    EmptyTaskName,
    /// `group()` was given a blank name.
    EmptyGroupName,
    /// A scope was opened inside a task.
    NestedTask,
    /// A task with this full path exists or is being built.
    TaskAlreadyDefined(String),
    /// A group with the full path wanted for a task exists or is being built.
    TaskDefinedAsGroup(String),
    /// A group with this full path exists or is being built.
    GroupAlreadyDefined(String),
    /// A task with the full path wanted for a group exists or is being built.
    GroupDefinedAsTask(String),
    /// A task was closed while a group was the open scope.
    EndTaskInsideGroup,
    /// A task was closed while no scope was open.
    EndTaskWithoutTask,
    /// A group was closed while a task was the open scope.
    EndGroupInsideTask,
    /// A group was closed while no scope was open.
    EndGroupWithoutGroup,
    /// `actions()` was used outside a task.
    ActionsOutsideTask,
    /// `args()` was used outside a task.
    ArgsOutsideTask,
    /// `description()` was used outside any scope.
    DescriptionOutsideScope,
    /// `dir()` was used a second time in one task.
    DirectoryAlreadyDefined,
    /// `dir()` was used outside a task.
    DirectoryOutsideTask,
    /// `dir()` was given a blank path.
    DirectoryPathMissing,
    /// `dir()` was given a relative path before the script root was known.
    DirectoryRootUnknown,
    /// The directory could not be resolved: the path tried and the reason.
    DirectoryUnresolved { path: String, reason: String },
    /// The resolved path could not be inspected: the path and the reason.
    DirectoryUninspected { path: String, reason: String },
    /// The resolved path is not a directory.
    NotADirectory(String),
    /// `default_task()` was given a blank name.
    DefaultTaskNameMissing,
    /// `default_task()` was used a second time.
    DefaultTaskAlreadyDefined,
    /// The labelled primitive was used while no action was running.
    OutsideActions(String),
    /// A bare `--` was given.
    ArgumentNameRequired,
    /// The named option was given without a value.
    OptionValueMissing(String),
    /// A `key=value` token had an empty key.
    ArgumentNameEmpty,
    /// Arguments were to be bound for a task that the registry lacks.
    TaskNotRegistered(String),
    /// Arguments were given to a task that declares none.
    ArgumentsNotAccepted(String),
    /// The named parameter got no value and has no default.
    ArgumentMissing(String),
    /// More positional values were given than parameters could take: the
    /// first one left over.
    UnexpectedPositional(String),
    /// Named values were given that no parameter took: their names.
    UnknownArguments(Vec<String>),
    /// No task goes by this name.
    TaskNotFound(String),
    /// Several tasks go by this leaf name: the name and their full paths.
    TaskAmbiguous { name: String, candidates: Vec<String> },
    /// The task has no action to run.
    ActionsMissing(String),
    /// A task was to be run before any script was loaded.
    ScriptNotLoaded,
    /// The shorthand command line named no task.
    TaskNameRequired,
}

/// What a `TaskError` holds, as plain text.
pub enum TaskErrorView {
    EmptyTaskName,
    EmptyGroupName,
    NestedTask,
    TaskAlreadyDefined(Seq<char>),
    TaskDefinedAsGroup(Seq<char>),
    GroupAlreadyDefined(Seq<char>),
    GroupDefinedAsTask(Seq<char>),
    EndTaskInsideGroup,
    EndTaskWithoutTask,
    EndGroupInsideTask,
    EndGroupWithoutGroup,
    ActionsOutsideTask,
    ArgsOutsideTask,
    DescriptionOutsideScope,
    DirectoryAlreadyDefined,
    DirectoryOutsideTask,
    DirectoryPathMissing,
    DirectoryRootUnknown,
    DirectoryUnresolved { path: Seq<char>, reason: Seq<char> },
    DirectoryUninspected { path: Seq<char>, reason: Seq<char> },
    NotADirectory(Seq<char>),
    DefaultTaskNameMissing,
    DefaultTaskAlreadyDefined,
    OutsideActions(Seq<char>),
    ArgumentNameRequired,
    OptionValueMissing(Seq<char>),
    ArgumentNameEmpty,
    TaskNotRegistered(Seq<char>),
    ArgumentsNotAccepted(Seq<char>),
    ArgumentMissing(Seq<char>),
    UnexpectedPositional(Seq<char>),
    UnknownArguments(Seq<Seq<char>>),
    TaskNotFound(Seq<char>),
    TaskAmbiguous { name: Seq<char>, candidates: Seq<Seq<char>> },
    ActionsMissing(Seq<char>),
    ScriptNotLoaded,
    TaskNameRequired,
}

impl View for TaskError {
    type V = TaskErrorView;

    open spec fn view(&self) -> TaskErrorView {
        match self {
            TaskError::EmptyTaskName => TaskErrorView::EmptyTaskName,
            TaskError::EmptyGroupName => TaskErrorView::EmptyGroupName,
            TaskError::NestedTask => TaskErrorView::NestedTask,
            TaskError::TaskAlreadyDefined(path) => TaskErrorView::TaskAlreadyDefined(path@),
            TaskError::TaskDefinedAsGroup(path) => TaskErrorView::TaskDefinedAsGroup(path@),
            TaskError::GroupAlreadyDefined(path) => TaskErrorView::GroupAlreadyDefined(path@),
            TaskError::GroupDefinedAsTask(path) => TaskErrorView::GroupDefinedAsTask(path@),
            TaskError::EndTaskInsideGroup => TaskErrorView::EndTaskInsideGroup,
            TaskError::EndTaskWithoutTask => TaskErrorView::EndTaskWithoutTask,
            TaskError::EndGroupInsideTask => TaskErrorView::EndGroupInsideTask,
            TaskError::EndGroupWithoutGroup => TaskErrorView::EndGroupWithoutGroup,
            TaskError::ActionsOutsideTask => TaskErrorView::ActionsOutsideTask,
            TaskError::ArgsOutsideTask => TaskErrorView::ArgsOutsideTask,
            TaskError::DescriptionOutsideScope => TaskErrorView::DescriptionOutsideScope,
            TaskError::DirectoryAlreadyDefined => TaskErrorView::DirectoryAlreadyDefined,
            TaskError::DirectoryOutsideTask => TaskErrorView::DirectoryOutsideTask,
            TaskError::DirectoryPathMissing => TaskErrorView::DirectoryPathMissing,
            TaskError::DirectoryRootUnknown => TaskErrorView::DirectoryRootUnknown,
            TaskError::DirectoryUnresolved { path, reason } => TaskErrorView::DirectoryUnresolved {
                path: path@,
                reason: reason@,
            },
            TaskError::DirectoryUninspected { path, reason } => TaskErrorView::DirectoryUninspected {
                path: path@,
                reason: reason@,
            },
            TaskError::NotADirectory(path) => TaskErrorView::NotADirectory(path@),
            TaskError::DefaultTaskNameMissing => TaskErrorView::DefaultTaskNameMissing,
            TaskError::DefaultTaskAlreadyDefined => TaskErrorView::DefaultTaskAlreadyDefined,
            TaskError::OutsideActions(label) => TaskErrorView::OutsideActions(label@),
            TaskError::ArgumentNameRequired => TaskErrorView::ArgumentNameRequired,
            TaskError::OptionValueMissing(name) => TaskErrorView::OptionValueMissing(name@),
            TaskError::ArgumentNameEmpty => TaskErrorView::ArgumentNameEmpty,
            TaskError::TaskNotRegistered(name) => TaskErrorView::TaskNotRegistered(name@),
            TaskError::ArgumentsNotAccepted(name) => TaskErrorView::ArgumentsNotAccepted(name@),
            TaskError::ArgumentMissing(name) => TaskErrorView::ArgumentMissing(name@),
            TaskError::UnexpectedPositional(value) => TaskErrorView::UnexpectedPositional(value@),
            TaskError::UnknownArguments(names) => TaskErrorView::UnknownArguments(
                names.deep_view(),
            ),
            TaskError::TaskNotFound(name) => TaskErrorView::TaskNotFound(name@),
            TaskError::TaskAmbiguous { name, candidates } => TaskErrorView::TaskAmbiguous {
                name: name@,
                candidates: candidates.deep_view(),
            },
            TaskError::ActionsMissing(path) => TaskErrorView::ActionsMissing(path@),
            TaskError::ScriptNotLoaded => TaskErrorView::ScriptNotLoaded,
            TaskError::TaskNameRequired => TaskErrorView::TaskNameRequired,
        }
    }
}

/// `parts`, with `separator` between each two.
pub open spec fn joined(parts: Seq<Seq<char>>, separator: Seq<char>) -> Seq<char>
    decreases parts.len(),
{
    if parts.len() == 0 {
        Seq::empty()
    } else if parts.len() == 1 {
        parts[0]
    } else {
        joined(parts.drop_last(), separator) + separator + parts.last()
    }
}

/// One line of two spaces, a hyphen, a space and the candidate, for each of
/// `candidates`.
pub open spec fn candidate_lines(candidates: Seq<Seq<char>>) -> Seq<char>
    decreases candidates.len(),
{
    if candidates.len() == 0 {
        Seq::empty()
    } else {
        candidate_lines(candidates.drop_last()) + "  - "@ + candidates.last() + "\n"@
    }
}

impl TaskErrorView {
    /// The text shown to the user for this error.
    pub open spec fn message(self) -> Seq<char> {
        match self {
            TaskErrorView::EmptyTaskName => "Task name cannot be empty."@,
            TaskErrorView::EmptyGroupName => "Group name cannot be empty."@,
            TaskErrorView::NestedTask => "Nested task() calls are not supported."@,
            TaskErrorView::TaskAlreadyDefined(path) => "Task '"@ + path + "' is already defined."@,
            TaskErrorView::TaskDefinedAsGroup(path) => "Task '"@ + path
                + "' is already defined as a group."@,
            TaskErrorView::GroupAlreadyDefined(path) => "Group '"@ + path
                + "' is already defined."@,
            TaskErrorView::GroupDefinedAsTask(path) => "Group '"@ + path
                + "' is already defined as a task."@,
            TaskErrorView::EndTaskInsideGroup => "context mismatch: end_task() called while inside group()."@,
            TaskErrorView::EndTaskWithoutTask => "context mismatch: end_task() called before task() was started."@,
            TaskErrorView::EndGroupInsideTask => "context mismatch: task() scope was not closed before ending group()."@,
            TaskErrorView::EndGroupWithoutGroup => "context mismatch: end_group() called before group() was started."@,
            TaskErrorView::ActionsOutsideTask => "actions() can only be used inside task(). Call task() first."@,
            TaskErrorView::ArgsOutsideTask => "args() can only be used inside task()."@,
            TaskErrorView::DescriptionOutsideScope => "description() can only be used inside task() or group()."@,
            TaskErrorView::DirectoryAlreadyDefined => "dir() can only be defined once per task()."@,
            TaskErrorView::DirectoryOutsideTask => "dir() can only be used inside task()."@,
            TaskErrorView::DirectoryPathMissing => "dir() requires a non-empty path."@,
            TaskErrorView::DirectoryRootUnknown => "dir() cannot be used before the rhaskfile root is known."@,
            TaskErrorView::DirectoryUnresolved { path, reason } => "dir(): unable to resolve '"@
                + path + "': "@ + reason,
            TaskErrorView::DirectoryUninspected { path, reason } => "dir(): unable to inspect '"@
                + path + "': "@ + reason,
            TaskErrorView::NotADirectory(path) => "dir(): '"@ + path + "' is not a directory."@,
            TaskErrorView::DefaultTaskNameMissing => "default_task() requires a task name."@,
            TaskErrorView::DefaultTaskAlreadyDefined => "default_task() can only be defined once per rhaskfile."@,
            TaskErrorView::OutsideActions(label) => label + " can only be used inside actions()."@,
            TaskErrorView::ArgumentNameRequired => "Argument name required after '--'."@,
            TaskErrorView::OptionValueMissing(name) => "Option '--"@ + name
                + "' is missing a value."@,
            TaskErrorView::ArgumentNameEmpty => "Argument name cannot be empty."@,
            TaskErrorView::TaskNotRegistered(name) => "Internal error: task '"@ + name
                + "' not found"@,
            TaskErrorView::ArgumentsNotAccepted(name) => "Task '"@ + name
                + "' does not accept arguments."@,
            TaskErrorView::ArgumentMissing(name) => "Argument '"@ + name + "' is missing."@,
            TaskErrorView::UnexpectedPositional(value) => "Unexpected positional argument '"@
                + value + "' provided."@,
            TaskErrorView::UnknownArguments(names) => "Unknown argument(s): "@ + joined(
                names,
                ", "@,
            ),
            TaskErrorView::TaskNotFound(name) => "Task '"@ + name + "' does not exist."@,
            TaskErrorView::TaskAmbiguous { name, candidates } => "Task '"@ + name
                + "' matches multiple candidates:\n"@ + candidate_lines(candidates)
                + "Please use the fully-qualified name (e.g. group.task)."@,
            TaskErrorView::ActionsMissing(path) => "Task '"@ + path
                + "' has no actions() registered."@,
            TaskErrorView::ScriptNotLoaded => "AST is not loaded. Run the script first."@,
            TaskErrorView::TaskNameRequired => "Task name is required when omitting the 'run' subcommand."@,
        }
    }
}

/// `parts`, with `separator` between each two.
pub fn join(parts: &Vec<String>, separator: &str) -> (text: String)
    ensures
        text@ == joined(parts.deep_view(), separator@),
{
    let mut text = String::new();
    let mut i: usize = 0;
    assert(parts.deep_view().subrange(0, 0) =~= Seq::<Seq<char>>::empty());
    while i < parts.len()
        invariant
            i <= parts.len(),
            text@ == joined(parts.deep_view().subrange(0, i as int), separator@),
        decreases parts.len() - i,
    {
        proof {
            let next = parts.deep_view().subrange(0, i + 1);
            assert(next.drop_last() =~= parts.deep_view().subrange(0, i as int));
            assert(next.last() == parts[i as int]@);
            if i == 0 {
                assert(text@ + parts[i as int]@ =~= parts[i as int]@);
            }
        }
        if i > 0 {
            text.append(separator);
        }
        text.append(parts[i].as_str());
        i += 1;
    }
    assert(parts.deep_view().subrange(0, i as int) =~= parts.deep_view());
    text
}

/// One line for each of `candidates`.
fn list_candidates(candidates: &Vec<String>) -> (text: String)
    ensures
        text@ == candidate_lines(candidates.deep_view()),
{
    let mut text = String::new();
    let mut i: usize = 0;
    assert(candidates.deep_view().subrange(0, 0) =~= Seq::<Seq<char>>::empty());
    while i < candidates.len()
        invariant
            i <= candidates.len(),
            text@ == candidate_lines(candidates.deep_view().subrange(0, i as int)),
        decreases candidates.len() - i,
    {
        proof {
            let next = candidates.deep_view().subrange(0, i + 1);
            assert(next.drop_last() =~= candidates.deep_view().subrange(0, i as int));
            assert(next.last() == candidates[i as int]@);
        }
        text.append("  - ");
        text.append(candidates[i].as_str());
        text.append("\n");
        i += 1;
    }
    assert(candidates.deep_view().subrange(0, i as int) =~= candidates.deep_view());
    text
}

impl TaskError {
    /// The text shown to the user for this error.
    pub fn message(&self) -> (text: String)
        ensures
            text@ == self@.message(),
    {
        match self {
            TaskError::EmptyTaskName => String::from_str("Task name cannot be empty."),
            TaskError::EmptyGroupName => String::from_str("Group name cannot be empty."),
            TaskError::NestedTask => String::from_str("Nested task() calls are not supported."),
            TaskError::TaskAlreadyDefined(path) => framed("Task '", path, "' is already defined."),
            TaskError::TaskDefinedAsGroup(path) => framed(
                "Task '",
                path,
                "' is already defined as a group.",
            ),
            TaskError::GroupAlreadyDefined(path) => framed(
                "Group '",
                path,
                "' is already defined.",
            ),
            TaskError::GroupDefinedAsTask(path) => framed(
                "Group '",
                path,
                "' is already defined as a task.",
            ),
            TaskError::EndTaskInsideGroup => String::from_str(
                "context mismatch: end_task() called while inside group().",
            ),
            TaskError::EndTaskWithoutTask => String::from_str(
                "context mismatch: end_task() called before task() was started.",
            ),
            TaskError::EndGroupInsideTask => String::from_str(
                "context mismatch: task() scope was not closed before ending group().",
            ),
            TaskError::EndGroupWithoutGroup => String::from_str(
                "context mismatch: end_group() called before group() was started.",
            ),
            TaskError::ActionsOutsideTask => String::from_str(
                "actions() can only be used inside task(). Call task() first.",
            ),
            TaskError::ArgsOutsideTask => String::from_str("args() can only be used inside task()."),
            TaskError::DescriptionOutsideScope => String::from_str(
                "description() can only be used inside task() or group().",
            ),
            TaskError::DirectoryAlreadyDefined => String::from_str(
                "dir() can only be defined once per task().",
            ),
            TaskError::DirectoryOutsideTask => String::from_str(
                "dir() can only be used inside task().",
            ),
            TaskError::DirectoryPathMissing => String::from_str("dir() requires a non-empty path."),
            TaskError::DirectoryRootUnknown => String::from_str(
                "dir() cannot be used before the rhaskfile root is known.",
            ),
            TaskError::DirectoryUnresolved { path, reason } => {
                let mut text = framed("dir(): unable to resolve '", path, "': ");
                text.append(reason);
                text
            },
            TaskError::DirectoryUninspected { path, reason } => {
                let mut text = framed("dir(): unable to inspect '", path, "': ");
                text.append(reason);
                text
            },
            TaskError::NotADirectory(path) => framed("dir(): '", path, "' is not a directory."),
            TaskError::DefaultTaskNameMissing => String::from_str(
                "default_task() requires a task name.",
            ),
            TaskError::DefaultTaskAlreadyDefined => String::from_str(
                "default_task() can only be defined once per rhaskfile.",
            ),
            TaskError::OutsideActions(label) => {
                let mut text = String::from_str(label);
                text.append(" can only be used inside actions().");
                text
            },
            TaskError::ArgumentNameRequired => String::from_str(
                "Argument name required after '--'.",
            ),
            TaskError::OptionValueMissing(name) => framed(
                "Option '--",
                name,
                "' is missing a value.",
            ),
            TaskError::ArgumentNameEmpty => String::from_str("Argument name cannot be empty."),
            TaskError::TaskNotRegistered(name) => framed(
                "Internal error: task '",
                name,
                "' not found",
            ),
            TaskError::ArgumentsNotAccepted(name) => framed(
                "Task '",
                name,
                "' does not accept arguments.",
            ),
            TaskError::ArgumentMissing(name) => framed("Argument '", name, "' is missing."),
            TaskError::UnexpectedPositional(value) => framed(
                "Unexpected positional argument '",
                value,
                "' provided.",
            ),
            TaskError::UnknownArguments(names) => {
                let mut text = String::from_str("Unknown argument(s): ");
                let list = join(names, ", ");
                text.append(list.as_str());
                text
            },
            TaskError::TaskNotFound(name) => framed("Task '", name, "' does not exist."),
            TaskError::TaskAmbiguous { name, candidates } => {
                let mut text = framed("Task '", name, "' matches multiple candidates:\n");
                let lines = list_candidates(candidates);
                text.append(lines.as_str());
                text.append("Please use the fully-qualified name (e.g. group.task).");
                text
            },
            TaskError::ActionsMissing(path) => framed(
                "Task '",
                path,
                "' has no actions() registered.",
            ),
            TaskError::ScriptNotLoaded => String::from_str(
                "AST is not loaded. Run the script first.",
            ),
            TaskError::TaskNameRequired => String::from_str(
                "Task name is required when omitting the 'run' subcommand.",
            ),
        }
    }
}

} // verus!
