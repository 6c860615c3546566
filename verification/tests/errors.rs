use rhask::error::{join, TaskError};

fn text(value: &str) -> String {
    value.to_string()
}

#[test]
fn every_error_has_its_message() {
    let cases: Vec<(TaskError, &str)> = vec![
        (TaskError::EmptyTaskName, "Task name cannot be empty."),
        (TaskError::EmptyGroupName, "Group name cannot be empty."),
        (TaskError::NestedTask, "Nested task() calls are not supported."),
        (TaskError::TaskAlreadyDefined(text("a.b")), "Task 'a.b' is already defined."),
        (
            TaskError::TaskDefinedAsGroup(text("a.b")),
            "Task 'a.b' is already defined as a group.",
        ),
        (TaskError::GroupAlreadyDefined(text("g")), "Group 'g' is already defined."),
        (
            TaskError::GroupDefinedAsTask(text("g")),
            "Group 'g' is already defined as a task.",
        ),
        (
            TaskError::EndTaskInsideGroup,
            "context mismatch: end_task() called while inside group().",
        ),
        (
            TaskError::EndTaskWithoutTask,
            "context mismatch: end_task() called before task() was started.",
        ),
        (
            TaskError::EndGroupInsideTask,
            "context mismatch: task() scope was not closed before ending group().",
        ),
        (
            TaskError::EndGroupWithoutGroup,
            "context mismatch: end_group() called before group() was started.",
        ),
        (
            TaskError::ActionsOutsideTask,
            "actions() can only be used inside task(). Call task() first.",
        ),
        (TaskError::ArgsOutsideTask, "args() can only be used inside task()."),
        (
            TaskError::DescriptionOutsideScope,
            "description() can only be used inside task() or group().",
        ),
        (
            TaskError::DirectoryAlreadyDefined,
            "dir() can only be defined once per task().",
        ),
        (TaskError::DirectoryOutsideTask, "dir() can only be used inside task()."),
        (TaskError::DirectoryPathMissing, "dir() requires a non-empty path."),
        (
            TaskError::DirectoryRootUnknown,
            "dir() cannot be used before the rhaskfile root is known.",
        ),
        (
            TaskError::DirectoryUnresolved {
                path: text("/x/y"),
                reason: text("not found"),
            },
            "dir(): unable to resolve '/x/y': not found",
        ),
        (
            TaskError::DirectoryUninspected {
                path: text("/x/y"),
                reason: text("denied"),
            },
            "dir(): unable to inspect '/x/y': denied",
        ),
        (TaskError::NotADirectory(text("/x/y")), "dir(): '/x/y' is not a directory."),
        (TaskError::DefaultTaskNameMissing, "default_task() requires a task name."),
        (
            TaskError::DefaultTaskAlreadyDefined,
            "default_task() can only be defined once per rhaskfile.",
        ),
        (
            TaskError::OutsideActions(text("exec()")),
            "exec() can only be used inside actions().",
        ),
        (TaskError::ArgumentNameRequired, "Argument name required after '--'."),
        (
            TaskError::OptionValueMissing(text("arch")),
            "Option '--arch' is missing a value.",
        ),
        (TaskError::ArgumentNameEmpty, "Argument name cannot be empty."),
        (
            TaskError::TaskNotRegistered(text("t")),
            "Internal error: task 't' not found",
        ),
        (
            TaskError::ArgumentsNotAccepted(text("t")),
            "Task 't' does not accept arguments.",
        ),
        (TaskError::ArgumentMissing(text("version")), "Argument 'version' is missing."),
        (
            TaskError::UnexpectedPositional(text("extra")),
            "Unexpected positional argument 'extra' provided.",
        ),
        (
            TaskError::UnknownArguments(vec![text("a"), text("b"), text("c")]),
            "Unknown argument(s): a, b, c",
        ),
        (TaskError::UnknownArguments(vec![]), "Unknown argument(s): "),
        (TaskError::TaskNotFound(text(" t ")), "Task ' t ' does not exist."),
        (
            TaskError::TaskAmbiguous {
                name: text("deploy"),
                candidates: vec![text("build.deploy"), text("ops.deploy")],
            },
            "Task 'deploy' matches multiple candidates:\n  - build.deploy\n  - ops.deploy\nPlease use the fully-qualified name (e.g. group.task).",
        ),
        (
            TaskError::ActionsMissing(text("a.t")),
            "Task 'a.t' has no actions() registered.",
        ),
        (TaskError::ScriptNotLoaded, "AST is not loaded. Run the script first."),
        (
            TaskError::TaskNameRequired,
            "Task name is required when omitting the 'run' subcommand.",
        ),
    ];
    for (error, expected) in cases {
        assert_eq!(error.message(), expected);
    }
}

#[test]
fn join_puts_the_separator_between_parts() {
    assert_eq!(join(&vec![], ", "), "");
    assert_eq!(join(&vec![text("a")], ", "), "a");
    assert_eq!(join(&vec![text("a"), text(""), text("c")], "--"), "a----c");
}
