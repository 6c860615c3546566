use indexmap::IndexMap;
use rhai::FnPtr;
use rhask::engine::{
    actions_only_error, ensure_actions_scope, trigger_impl, ActionScope, ExecutionState,
    ScriptEngine,
};
use rhask::error::TaskError;

fn action(name: &str) -> FnPtr {
    FnPtr::new(name).unwrap()
}

fn add_task(
    engine: &mut ScriptEngine,
    name: &str,
    actions: Option<&str>,
    params: Vec<(&str, Option<&str>)>,
    dir: Option<&str>,
) {
    engine.build_stack.begin_task(&engine.registry, name).unwrap();
    if let Some(actions) = actions {
        engine.build_stack.set_actions(action(actions)).unwrap();
    }
    if !params.is_empty() {
        let pairs = params
            .into_iter()
            .map(|(name, default)| (name.to_string(), default.map(|d| d.to_string())))
            .collect();
        engine.build_stack.set_args(pairs).unwrap();
    }
    if let Some(dir) = dir {
        engine
            .build_stack
            .set_directory(
                dir,
                true,
                rhask::task::stack::DirectoryProbe::Directory {
                    resolved: dir.to_string(),
                },
            )
            .unwrap();
    }
    engine.build_stack.end_task(&mut engine.registry).unwrap();
}

fn loaded_engine() -> ScriptEngine {
    let mut engine = ScriptEngine::new("/launch".to_string());
    engine.run_script("/scripts".to_string());
    engine
}

fn engine_with_hello() -> ScriptEngine {
    let mut engine = loaded_engine();
    add_task(&mut engine, "hello", Some("hello_actions"), vec![], None);
    engine.script_evaluated();
    engine
}

fn engine_with_two_deploys() -> ScriptEngine {
    let mut engine = loaded_engine();
    engine.build_stack.begin_group(&engine.registry, "build").unwrap();
    add_task(&mut engine, "deploy", Some("build_deploy"), vec![], None);
    engine.build_stack.end_group(&mut engine.registry).unwrap();
    engine.build_stack.begin_group(&engine.registry, "ops").unwrap();
    add_task(&mut engine, "deploy", Some("ops_deploy"), vec![], None);
    engine.build_stack.end_group(&mut engine.registry).unwrap();
    add_task(&mut engine, "caller", Some("caller_actions"), vec![], None);
    engine.script_evaluated();
    engine
}

fn engine_with_target() -> ScriptEngine {
    let mut engine = loaded_engine();
    add_task(
        &mut engine,
        "target",
        Some("target_actions"),
        vec![("profile", Some("debug")), ("arch", Some("x86_64"))],
        None,
    );
    add_task(&mut engine, "caller", Some("caller_actions"), vec![], None);
    engine.script_evaluated();
    engine
}

fn running(engine: &mut ScriptEngine) {
    let entry = ActionScope::start(&mut engine.exec_state, None, "/launch".to_string());
    assert!(entry.change_to.is_none());
}

fn named_of(pairs: &[(&str, &str)]) -> IndexMap<String, String> {
    let mut named = IndexMap::new();
    for (name, value) in pairs {
        named.insert(name.to_string(), value.to_string());
    }
    named
}

#[test]
fn run_task_errors_when_task_missing() {
    let engine = engine_with_hello();
    let err = engine.run_task("unknown_task", &[]).unwrap_err();
    assert!(
        err.message()
            .contains("Task 'unknown_task' does not exist."),
        "unexpected error message: {}",
        err.message()
    );
}

#[test]
fn run_task_errors_when_name_ambiguous() {
    let engine = engine_with_two_deploys();
    let err = engine.run_task("deploy", &[]).unwrap_err();
    assert!(
        err.message().contains("matches multiple candidates"),
        "unexpected error message: {}",
        err.message()
    );
    assert_eq!(
        err.message(),
        "Task 'deploy' matches multiple candidates:\n  - build.deploy\n  - ops.deploy\nPlease use the fully-qualified name (e.g. group.task)."
    );
}

#[test]
fn run_task_errors_when_actions_missing() {
    let mut engine = loaded_engine();
    add_task(&mut engine, "no_actions", None, vec![], None);
    engine.script_evaluated();
    let err = engine.run_task("no_actions", &[]).unwrap_err();
    assert!(
        err.message()
            .contains("Task 'no_actions' has no actions() registered."),
        "unexpected error message: {}",
        err.message()
    );
}

#[test]
fn run_task_errors_when_ast_missing() {
    let mut engine = engine_with_hello();
    engine.script_loaded = false;
    let err = engine.run_task("hello", &[]).unwrap_err();
    assert!(
        err.message()
            .contains("AST is not loaded. Run the script first."),
        "unexpected error message: {}",
        err.message()
    );
}

#[test]
fn trigger_errors_when_target_is_missing() {
    let mut engine = loaded_engine();
    add_task(&mut engine, "caller", Some("caller_actions"), vec![], None);
    engine.script_evaluated();
    running(&mut engine);
    let err = trigger_impl(
        &engine.registry,
        &engine.exec_state,
        "missing_task",
        Vec::new(),
        IndexMap::new(),
    )
    .unwrap_err();
    assert!(
        err.message().contains("does not exist"),
        "unexpected error message: {}",
        err.message()
    );
    assert!(matches!(err, TaskError::TaskNotFound(_)));
}

#[test]
fn trigger_errors_when_target_is_ambiguous() {
    let mut engine = engine_with_two_deploys();
    running(&mut engine);
    let err = trigger_impl(
        &engine.registry,
        &engine.exec_state,
        "deploy",
        Vec::new(),
        IndexMap::new(),
    )
    .unwrap_err();
    assert!(
        err.message().contains("matches multiple candidates"),
        "unexpected error message: {}",
        err.message()
    );
}

#[test]
fn trigger_errors_when_target_has_no_actions() {
    let mut engine = loaded_engine();
    add_task(&mut engine, "no_actions", None, vec![], None);
    add_task(&mut engine, "caller", Some("caller_actions"), vec![], None);
    engine.script_evaluated();
    running(&mut engine);
    let err = trigger_impl(
        &engine.registry,
        &engine.exec_state,
        "no_actions",
        Vec::new(),
        IndexMap::new(),
    )
    .unwrap_err();
    assert!(
        err.message()
            .contains("Task 'no_actions' has no actions() registered."),
        "unexpected error message: {}",
        err.message()
    );
    assert!(matches!(err, TaskError::ActionsMissing(_)));
}

#[test]
fn trigger_passes_positional_arguments() {
    let mut engine = engine_with_target();
    running(&mut engine);
    let invocation = trigger_impl(
        &engine.registry,
        &engine.exec_state,
        "target",
        vec!["arm64".to_string(), "release".to_string()],
        IndexMap::new(),
    )
    .expect("trigger with positional args");
    assert_eq!(
        invocation.arguments,
        vec!["arm64".to_string(), "release".to_string()]
    );
    assert_eq!(invocation.full_path, "target");
    assert_eq!(invocation.action.fn_name(), "target_actions");
}

#[test]
fn trigger_passes_named_arguments() {
    let mut engine = engine_with_target();
    running(&mut engine);
    let invocation = trigger_impl(
        &engine.registry,
        &engine.exec_state,
        "target",
        Vec::new(),
        named_of(&[("arch", "arm64"), ("profile", "release")]),
    )
    .expect("trigger with named args");
    assert_eq!(
        invocation.arguments,
        vec!["arm64".to_string(), "release".to_string()]
    );
}

#[test]
fn trigger_passes_mixed_arguments() {
    let mut engine = engine_with_target();
    running(&mut engine);
    let invocation = trigger_impl(
        &engine.registry,
        &engine.exec_state,
        "target",
        vec!["release".to_string()],
        named_of(&[("arch", "arm64")]),
    )
    .expect("trigger with mixed args");
    assert_eq!(
        invocation.arguments,
        vec!["arm64".to_string(), "release".to_string()]
    );
}

#[test]
fn trigger_outside_actions_is_refused() {
    let engine = engine_with_target();
    let err = trigger_impl(
        &engine.registry,
        &engine.exec_state,
        "target",
        Vec::new(),
        IndexMap::new(),
    )
    .unwrap_err();
    assert!(matches!(err, TaskError::OutsideActions(_)));
    assert_eq!(
        err.message(),
        "trigger() can only be used inside actions()."
    );
}

#[test]
fn trigger_reports_bad_arguments_before_the_guard() {
    let engine = engine_with_target();
    let err = trigger_impl(
        &engine.registry,
        &engine.exec_state,
        "target",
        Vec::new(),
        named_of(&[("nope", "1")]),
    )
    .unwrap_err();
    assert_eq!(err.message(), "Unknown argument(s): nope");
}

#[test]
fn run_task_hands_back_the_action_with_bound_arguments() {
    let mut engine = loaded_engine();
    add_task(
        &mut engine,
        "build",
        Some("build_actions"),
        vec![("profile", Some("debug")), ("target", None)],
        Some("/work/build"),
    );
    engine.script_evaluated();
    let invocation = engine
        .run_task(
            " build ",
            &["release".to_string(), "--target=wasm32".to_string()],
        )
        .expect("run");
    assert_eq!(invocation.full_path, "build");
    assert_eq!(invocation.action.fn_name(), "build_actions");
    assert_eq!(
        invocation.arguments,
        vec!["release".to_string(), "wasm32".to_string()]
    );
    assert_eq!(invocation.working_dir.as_deref(), Some("/work/build"));
}

#[test]
fn run_task_reports_bad_arguments_before_a_missing_script() {
    let mut engine = loaded_engine();
    add_task(&mut engine, "hello", Some("hello_actions"), vec![], None);
    let err = engine.run_task("hello", &["extra".to_string()]).unwrap_err();
    assert_eq!(err.message(), "Task 'hello' does not accept arguments.");
    let err = engine.run_task("hello", &[]).unwrap_err();
    assert!(matches!(err, TaskError::ScriptNotLoaded));
    let err = engine.run_task("nobody", &["extra".to_string()]).unwrap_err();
    assert_eq!(err.message(), "Task 'nobody' does not exist.");
}

#[test]
fn run_task_resolves_by_leaf_and_by_full_path() {
    let engine = engine_with_two_deploys();
    let invocation = engine.run_task("build.deploy", &[]).expect("full path");
    assert_eq!(invocation.action.fn_name(), "build_deploy");
    let invocation = engine.run_task("ops.deploy", &[]).expect("full path");
    assert_eq!(invocation.action.fn_name(), "ops_deploy");
    let invocation = engine.run_task("caller", &[]).expect("leaf");
    assert_eq!(invocation.full_path, "caller");
    assert!(invocation.working_dir.is_none());
    assert!(invocation.arguments.is_empty());
}

#[test]
fn engine_starts_empty_and_keeps_the_default_task() {
    let mut engine = ScriptEngine::new("/launch".to_string());
    assert!(!engine.script_loaded);
    assert!(engine.default_task().is_none());
    assert_eq!(engine.registry.task_count(), 0);
    assert_eq!(engine.build_stack.depth(), 1);
    assert!(!engine.exec_state.is_active());
    engine.registry.set_default_task(" hello ").unwrap();
    assert_eq!(engine.default_task().as_deref(), Some("hello"));
    engine.build_stack.begin_group(&engine.registry, "left_open").unwrap();
    engine.run_script("/scripts".to_string());
    assert_eq!(engine.build_stack.depth(), 1);
    assert_eq!(
        engine.build_stack.script_root().map(|s| s.as_str()),
        Some("/scripts")
    );
    assert!(!engine.script_loaded);
    engine.script_evaluated();
    assert!(engine.script_loaded);
}

#[test]
fn child_scope_restores_parent_directory() {
    let mut state = ExecutionState::new("/launch".to_string());
    let mut cwd = "/launch".to_string();

    let parent = ActionScope::start(&mut state, Some("/A".to_string()), cwd.clone());
    assert_eq!(parent.change_to.as_deref(), Some("/A"));
    if let Some(dir) = parent.change_to {
        cwd = dir;
    }
    assert_eq!(cwd, "/A");
    assert_eq!(state.current_dir().as_deref(), Some("/A"));

    let child =
        ActionScope::start_nested(&mut state, "trigger()", Some("/B".to_string()), cwd.clone())
            .expect("nested scope");
    assert_eq!(child.change_to.as_deref(), Some("/B"));
    if let Some(dir) = child.change_to {
        cwd = dir;
    }
    assert_eq!(cwd, "/B");
    assert_eq!(state.current_dir().as_deref(), Some("/B"));

    if let Some(dir) = child.scope.finish(&mut state) {
        cwd = dir;
    }
    assert_eq!(cwd, "/A");
    assert!(state.is_active());
    assert_eq!(state.current_dir().as_deref(), Some("/A"));

    if let Some(dir) = parent.scope.finish(&mut state) {
        cwd = dir;
    }
    assert_eq!(cwd, "/launch");
    assert!(!state.is_active());
    assert!(state.current_dir().is_none());
}

#[test]
fn child_without_directory_runs_in_the_base_directory() {
    let mut state = ExecutionState::new("/launch".to_string());
    let mut cwd = "/launch".to_string();
    let parent = ActionScope::start(&mut state, Some("/A".to_string()), cwd.clone());
    cwd = parent.change_to.clone().unwrap_or(cwd);
    let child =
        ActionScope::start_nested(&mut state, "trigger()", None, cwd.clone()).expect("nested");
    assert_eq!(child.change_to.as_deref(), Some("/launch"));
    cwd = child.change_to.clone().unwrap_or(cwd);
    assert_eq!(cwd, "/launch");
    assert!(state.current_dir().is_none());
    assert_eq!(child.scope.finish(&mut state).as_deref(), Some("/A"));
    assert_eq!(parent.scope.finish(&mut state).as_deref(), Some("/launch"));
}

#[test]
fn scope_in_the_current_directory_changes_nothing() {
    let mut state = ExecutionState::new("/launch".to_string());
    let entry = ActionScope::start(&mut state, None, "/launch".to_string());
    assert!(entry.change_to.is_none());
    assert!(state.is_active());
    let same = ActionScope::start(&mut state, Some("/launch".to_string()), "/launch".to_string());
    assert!(same.change_to.is_none());
    assert_eq!(same.scope.finish(&mut state).as_deref(), Some("/launch"));
    assert_eq!(entry.scope.finish(&mut state).as_deref(), Some("/launch"));
    assert!(!state.is_active());
}

#[test]
fn nested_scope_needs_a_running_action() {
    let mut state = ExecutionState::new("/launch".to_string());
    let err = ActionScope::start_nested(
        &mut state,
        "trigger()",
        Some("/B".to_string()),
        "/launch".to_string(),
    )
    .unwrap_err();
    assert!(matches!(err, TaskError::OutsideActions(_)));
    assert_eq!(
        err.message(),
        "trigger() can only be used inside actions()."
    );
    assert!(!state.is_active());

    let err = ensure_actions_scope(&state, "exec()").unwrap_err();
    assert_eq!(err.message(), "exec() can only be used inside actions().");
    assert_eq!(
        actions_only_error("exec_stream()").message(),
        "exec_stream() can only be used inside actions()."
    );
    state.push(None);
    assert!(ensure_actions_scope(&state, "exec()").is_ok());
    state.pop();
    state.pop();
    assert!(!state.is_active());
}

#[test]
fn enter_directory_compares_with_the_current_directory() {
    let state = ExecutionState::new("/base".to_string());
    let change = state.enter_directory(None, "/elsewhere");
    assert_eq!(change.change_to.as_deref(), Some("/base"));
    assert_eq!(change.previous_dir, "/elsewhere");
    let wanted = "/wanted".to_string();
    let change = state.enter_directory(Some(&wanted), "/wanted");
    assert!(change.change_to.is_none());
    assert_eq!(change.previous_dir, "/wanted");
    let change = state.enter_directory(Some(&wanted), "/base");
    assert_eq!(change.change_to.as_deref(), Some("/wanted"));
}
