use rhai::FnPtr;
use rhask::error::TaskError;
use rhask::task::model::RegistryEntry;
use rhask::task::stack::{DirectoryProbe, DirectoryRequest};
use rhask::task::{BuildStack, TaskLookup, TaskRegistry};

fn found_directory(path: &str) -> DirectoryProbe {
    DirectoryProbe::Directory {
        resolved: path.to_string(),
    }
}

fn entry_text(entry: &RegistryEntry) -> String {
    match entry {
        RegistryEntry::Task(path) => format!("task {}", path),
        RegistryEntry::Group(path) => format!("group {}", path),
    }
}

#[test]
fn dir_sets_absolute_path_from_relative_input() {
    let root = "/tmp/workspace".to_string();

    let mut stack = BuildStack::new();
    stack.set_script_root(root.clone());
    let mut registry = TaskRegistry::new();
    stack.begin_task(&registry, "demo").expect("begin task");
    let request = stack
        .directory_request("scripts", false)
        .expect("request for a relative path");
    assert_eq!(request.base.as_deref(), Some("/tmp/workspace"));
    assert_eq!(request.path, "scripts");
    stack
        .set_directory("scripts", false, found_directory("/tmp/workspace/scripts"))
        .expect("set dir");
    stack
        .end_task(&mut registry)
        .expect("end task with dir configured");

    let task = registry.task("demo").expect("task stored");
    let expected = "/tmp/workspace/scripts".to_string();
    assert_eq!(task.working_dir.as_ref(), Some(&expected));
}

#[test]
fn dir_rejects_second_invocation_in_same_task() {
    let mut stack = BuildStack::new();
    stack.set_script_root("/tmp/workspace".to_string());
    let registry = TaskRegistry::new();
    stack.begin_task(&registry, "dup").expect("begin task");
    stack
        .set_directory("scripts", false, found_directory("/tmp/workspace/scripts"))
        .expect("first dir()");
    let second = stack.set_directory("scripts", false, found_directory("/tmp/workspace/scripts"));
    assert!(second.is_err());
    assert_eq!(
        second.unwrap_err().message(),
        "dir() can only be defined once per task()."
    );
}

#[test]
fn dir_requires_directory_to_exist() {
    let mut stack = BuildStack::new();
    stack.set_script_root("/tmp/workspace".to_string());
    let registry = TaskRegistry::new();
    stack.begin_task(&registry, "missing").expect("begin task");
    let probe = DirectoryProbe::Unresolved {
        candidate: "/tmp/workspace/unknown_dir".to_string(),
        reason: "No such file or directory (os error 2)".to_string(),
    };
    let result = stack.set_directory("unknown_dir", false, probe);
    assert!(result.is_err());
    assert_eq!(
        result.unwrap_err().message(),
        "dir(): unable to resolve '/tmp/workspace/unknown_dir': No such file or directory (os error 2)"
    );
}

#[test]
fn dir_requires_task_scope() {
    let mut stack = BuildStack::new();
    stack.set_script_root("/tmp".to_string());
    let result = stack.set_directory("scripts", false, found_directory("/tmp/scripts"));
    assert!(result.is_err());
    assert_eq!(
        result.unwrap_err().message(),
        "dir() can only be used inside task()."
    );
}

#[test]
fn dir_accepts_absolute_path() {
    let mut stack = BuildStack::new();
    stack.set_script_root("/tmp/workspace".to_string());
    let mut registry = TaskRegistry::new();
    stack.begin_task(&registry, "abs").expect("begin task");
    let abs = "/tmp/workspace/scripts".to_string();
    let request: DirectoryRequest = stack.directory_request(&abs, true).expect("request");
    assert!(request.base.is_none());
    assert_eq!(request.path, abs);
    stack
        .set_directory(&abs, true, found_directory(&abs))
        .expect("set dir using absolute");
    stack.end_task(&mut registry).expect("end task");
    let task = registry.task("abs").expect("task stored");
    assert_eq!(task.working_dir.as_ref(), Some(&abs));
}

#[test]
fn dir_reports_each_way_of_failing() {
    let registry = TaskRegistry::new();
    let mut stack = BuildStack::new();
    stack.begin_group(&registry, "g").unwrap();
    let err = stack
        .set_directory("x", true, found_directory("/x"))
        .unwrap_err();
    assert!(matches!(err, TaskError::DirectoryOutsideTask));

    stack.begin_task(&registry, "t").unwrap();
    let err = stack
        .set_directory("  ", true, found_directory("/x"))
        .unwrap_err();
    assert_eq!(err.message(), "dir() requires a non-empty path.");

    let err = stack
        .set_directory("rel", false, found_directory("/x"))
        .unwrap_err();
    assert_eq!(
        err.message(),
        "dir() cannot be used before the rhaskfile root is known."
    );
    assert!(stack.directory_request("rel", false).is_err());

    let err = stack
        .set_directory(
            "/x",
            true,
            DirectoryProbe::Uninspected {
                resolved: "/x".to_string(),
                reason: "denied".to_string(),
            },
        )
        .unwrap_err();
    assert_eq!(err.message(), "dir(): unable to inspect '/x': denied");

    let err = stack
        .set_directory(
            "/x",
            true,
            DirectoryProbe::NotADirectory {
                resolved: "/x".to_string(),
            },
        )
        .unwrap_err();
    assert_eq!(err.message(), "dir(): '/x' is not a directory.");

    stack
        .set_directory(" /x ", true, found_directory("/real/x"))
        .expect("a good probe after bad ones");
    let request = stack.directory_request("/y", true);
    assert!(matches!(request, Err(TaskError::DirectoryAlreadyDefined)));
}

#[test]
fn paths_join_the_names_of_enclosing_scopes() {
    let mut registry = TaskRegistry::new();
    let mut stack = BuildStack::new();
    assert_eq!(stack.depth(), 1);
    stack.begin_group(&registry, " build ").unwrap();
    stack.begin_group(&registry, "release").unwrap();
    stack.begin_task(&registry, "\tdeploy\n").unwrap();
    assert_eq!(stack.depth(), 4);
    stack.end_task(&mut registry).unwrap();
    stack.begin_task(&registry, "package").unwrap();
    stack.end_task(&mut registry).unwrap();
    stack.end_group(&mut registry).unwrap();
    stack.begin_task(&registry, "clean").unwrap();
    stack.end_task(&mut registry).unwrap();
    stack.end_group(&mut registry).unwrap();
    stack.begin_task(&registry, "top").unwrap();
    stack.end_task(&mut registry).unwrap();
    assert_eq!(stack.depth(), 1);

    let tasks: Vec<String> = registry.task_paths().into_iter().cloned().collect();
    assert_eq!(
        tasks,
        vec![
            "build.release.deploy".to_string(),
            "build.release.package".to_string(),
            "build.clean".to_string(),
            "top".to_string(),
        ]
    );
    let groups: Vec<String> = registry.group_paths().into_iter().cloned().collect();
    assert_eq!(
        groups,
        vec!["build.release".to_string(), "build".to_string()]
    );
    let roots: Vec<String> = registry.root_entries().iter().map(entry_text).collect();
    assert_eq!(roots, vec!["group build".to_string(), "task top".to_string()]);
    let build = registry.group("build").expect("group");
    let entries: Vec<String> = build.entries.iter().map(entry_text).collect();
    assert_eq!(
        entries,
        vec!["group build.release".to_string(), "task build.clean".to_string()]
    );
    let release = registry.group("build.release").expect("group");
    let entries: Vec<String> = release.entries.iter().map(entry_text).collect();
    assert_eq!(
        entries,
        vec![
            "task build.release.deploy".to_string(),
            "task build.release.package".to_string()
        ]
    );
}

#[test]
fn end_task_without_open_task_is_a_context_mismatch() {
    let mut registry = TaskRegistry::new();
    let mut stack = BuildStack::new();
    stack.begin_group(&registry, "g").unwrap();
    let err = stack.end_task(&mut registry).unwrap_err();
    assert!(matches!(err, TaskError::EndTaskInsideGroup));
    assert_eq!(
        err.message(),
        "context mismatch: end_task() called while inside group()."
    );
    assert_eq!(stack.depth(), 1);
    assert_eq!(registry.task_count(), 0);
    assert_eq!(registry.group_count(), 0);

    let err = stack.end_task(&mut registry).unwrap_err();
    assert!(matches!(err, TaskError::EndTaskWithoutTask));
    assert_eq!(
        err.message(),
        "context mismatch: end_task() called before task() was started."
    );
    assert_eq!(stack.depth(), 0);
    stack.reset();
    assert_eq!(stack.depth(), 1);
}

#[test]
fn end_group_without_open_group_is_a_context_mismatch() {
    let mut registry = TaskRegistry::new();
    let mut stack = BuildStack::new();
    stack.begin_task(&registry, "t").unwrap();
    let err = stack.end_group(&mut registry).unwrap_err();
    assert!(matches!(err, TaskError::EndGroupInsideTask));
    assert_eq!(
        err.message(),
        "context mismatch: task() scope was not closed before ending group()."
    );
    let err = stack.end_group(&mut registry).unwrap_err();
    assert!(matches!(err, TaskError::EndGroupWithoutGroup));
    assert_eq!(
        err.message(),
        "context mismatch: end_group() called before group() was started."
    );
    assert_eq!(registry.task_count(), 0);
}

#[test]
fn names_must_not_be_blank() {
    let registry = TaskRegistry::new();
    let mut stack = BuildStack::new();
    let err = stack.begin_task(&registry, " \t ").unwrap_err();
    assert_eq!(err.message(), "Task name cannot be empty.");
    let err = stack.begin_group(&registry, "").unwrap_err();
    assert_eq!(err.message(), "Group name cannot be empty.");
    assert_eq!(stack.depth(), 1);
}

#[test]
fn nothing_opens_inside_a_task() {
    let registry = TaskRegistry::new();
    let mut stack = BuildStack::new();
    stack.begin_task(&registry, "outer").unwrap();
    let err = stack.begin_group(&registry, "inner").unwrap_err();
    assert!(matches!(err, TaskError::NestedTask));
    assert_eq!(err.message(), "Nested task() calls are not supported.");
    assert_eq!(stack.depth(), 2);
}

#[test]
fn paths_collide_with_finished_scopes() {
    let mut registry = TaskRegistry::new();
    let mut stack = BuildStack::new();
    stack.begin_task(&registry, "a").unwrap();
    stack.end_task(&mut registry).unwrap();
    stack.begin_group(&registry, "g").unwrap();
    stack.end_group(&mut registry).unwrap();

    let err = stack.begin_task(&registry, "a").unwrap_err();
    assert!(matches!(err, TaskError::TaskAlreadyDefined(_)));
    assert_eq!(err.message(), "Task 'a' is already defined.");
    let err = stack.begin_task(&registry, "g").unwrap_err();
    assert!(matches!(err, TaskError::TaskDefinedAsGroup(_)));
    assert_eq!(err.message(), "Task 'g' is already defined as a group.");
    let err = stack.begin_group(&registry, "g").unwrap_err();
    assert!(matches!(err, TaskError::GroupAlreadyDefined(_)));
    assert_eq!(err.message(), "Group 'g' is already defined.");
    let err = stack.begin_group(&registry, "a").unwrap_err();
    assert!(matches!(err, TaskError::GroupDefinedAsTask(_)));
    assert_eq!(err.message(), "Group 'a' is already defined as a task.");
    assert_eq!(stack.depth(), 1);
}

#[test]
fn dotted_names_collide_with_nested_paths() {
    let mut registry = TaskRegistry::new();
    let mut stack = BuildStack::new();
    stack.begin_group(&registry, "x").unwrap();
    stack.begin_group(&registry, "y").unwrap();
    stack.end_group(&mut registry).unwrap();
    let err = stack.begin_task(&registry, "y").unwrap_err();
    assert_eq!(err.message(), "Task 'x.y' is already defined as a group.");
    stack.begin_task(&registry, "z").unwrap();
    stack.end_task(&mut registry).unwrap();
    stack.end_group(&mut registry).unwrap();

    let err = stack.begin_group(&registry, "x.y").unwrap_err();
    assert_eq!(err.message(), "Group 'x.y' is already defined.");
    let err = stack.begin_group(&registry, "x.z").unwrap_err();
    assert_eq!(err.message(), "Group 'x.z' is already defined as a task.");
    stack.begin_task(&registry, "x.w").unwrap();
    stack.end_task(&mut registry).unwrap();
    assert!(registry.contains_task("x.w"));
    let groups: Vec<String> = registry.group_paths().into_iter().cloned().collect();
    assert_eq!(groups, vec!["x.y".to_string(), "x".to_string()]);
}

#[test]
fn setters_need_the_right_scope() {
    let registry = TaskRegistry::new();
    let mut stack = BuildStack::new();
    let err = stack.set_actions(FnPtr::new("run").unwrap()).unwrap_err();
    assert_eq!(
        err.message(),
        "actions() can only be used inside task(). Call task() first."
    );
    stack.begin_group(&registry, "g").unwrap();
    assert!(stack.set_actions(FnPtr::new("run").unwrap()).is_err());
    assert!(stack.set_args(Vec::new()).is_err());
    stack.set_description("a group").unwrap();
    stack.begin_task(&registry, "t").unwrap();
    stack.set_description("first").unwrap();
    stack.set_description("second").unwrap();
    stack.set_actions(FnPtr::new("run").unwrap()).unwrap();
    let mut registry = TaskRegistry::new();
    stack.end_task(&mut registry).unwrap();
    stack.end_group(&mut registry).unwrap();
    let task = registry.task("g.t").expect("task");
    assert_eq!(task.description.as_deref(), Some("second"));
    assert_eq!(task.actions.as_ref().map(|f| f.fn_name().to_string()), Some("run".to_string()));
    assert!(task.params.is_empty());
    assert!(task.working_dir.is_none());
    let group = registry.group("g").expect("group");
    assert_eq!(group.description.as_deref(), Some("a group"));
}

#[test]
fn parameters_are_kept_sorted_by_name() {
    let mut registry = TaskRegistry::new();
    let mut stack = BuildStack::new();
    stack.begin_task(&registry, "t").unwrap();
    stack
        .set_args(vec![
            ("zeta".to_string(), None),
            ("alpha".to_string(), Some("a".to_string())),
            ("Beta".to_string(), Some("".to_string())),
            ("alpha".to_string(), Some("again".to_string())),
            ("al".to_string(), None),
            ("\u{e9}t\u{e9}".to_string(), None),
        ])
        .unwrap();
    stack.end_task(&mut registry).unwrap();
    let task = registry.task("t").expect("task");
    let params: Vec<(String, Option<String>)> = task
        .params
        .iter()
        .map(|p| (p.name.clone(), p.default.clone()))
        .collect();
    assert_eq!(
        params,
        vec![
            ("Beta".to_string(), Some("".to_string())),
            ("al".to_string(), None),
            ("alpha".to_string(), Some("a".to_string())),
            ("alpha".to_string(), Some("again".to_string())),
            ("zeta".to_string(), None),
            ("\u{e9}t\u{e9}".to_string(), None),
        ]
    );
    let mut by_std: Vec<String> = params.iter().map(|p| p.0.clone()).collect();
    by_std.sort();
    let names: Vec<String> = params.iter().map(|p| p.0.clone()).collect();
    assert_eq!(names, by_std);
}

#[test]
fn later_parameters_replace_earlier_ones() {
    let mut registry = TaskRegistry::new();
    let mut stack = BuildStack::new();
    stack.begin_task(&registry, "t").unwrap();
    stack.set_args(vec![("a".to_string(), None)]).unwrap();
    stack.set_args(vec![("b".to_string(), None)]).unwrap();
    stack.end_task(&mut registry).unwrap();
    let names: Vec<String> = registry
        .task("t")
        .unwrap()
        .params
        .iter()
        .map(|p| p.name.clone())
        .collect();
    assert_eq!(names, vec!["b".to_string()]);
}

#[test]
fn reset_forgets_open_scopes_and_script_root() {
    let registry = TaskRegistry::new();
    let mut stack = BuildStack::new();
    stack.set_script_root("/root".to_string());
    assert_eq!(stack.script_root().map(|s| s.as_str()), Some("/root"));
    stack.begin_group(&registry, "g").unwrap();
    stack.begin_task(&registry, "t").unwrap();
    stack.reset();
    assert_eq!(stack.depth(), 1);
    assert!(stack.script_root().is_none());
    stack.begin_task(&registry, "t").unwrap();
    let mut registry = TaskRegistry::new();
    stack.end_task(&mut registry).unwrap();
    assert!(matches!(
        registry.resolve_task("t"),
        TaskLookup::Found { .. }
    ));
}

#[test]
fn discription_alias_sets_description() {
    let mut registry = TaskRegistry::new();
    let mut stack = BuildStack::new();
    stack.begin_task(&registry, "alias_desc").unwrap();
    stack.set_description("legacy alias").unwrap();
    stack.set_actions(FnPtr::new("noop").unwrap()).unwrap();
    stack.end_task(&mut registry).unwrap();
    let task = registry
        .task("alias_desc")
        .expect("task registered via discription");
    assert_eq!(task.description.as_deref(), Some("legacy alias"));
}
