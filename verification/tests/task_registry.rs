use rhask::task::TaskRegistry;

#[test]
fn default_task_rejects_empty_or_whitespace() {
    let mut registry = TaskRegistry::new();
    assert!(registry.set_default_task("").is_err());
    assert!(registry.set_default_task("   ").is_err());
    assert!(registry.default_task().is_none());
}

#[test]
fn default_task_allows_single_definition() {
    let mut registry = TaskRegistry::new();
    registry
        .set_default_task(" build.clean ")
        .expect("set default");
    assert_eq!(registry.default_task().as_deref(), Some("build.clean"));
    assert!(registry.set_default_task("other").is_err());
}

#[test]
fn default_task_errors_say_what_went_wrong() {
    let mut registry = TaskRegistry::new();
    let blank = registry.set_default_task(" \t").unwrap_err();
    assert_eq!(blank.message(), "default_task() requires a task name.");
    registry.set_default_task("build").unwrap();
    let again = registry.set_default_task("build").unwrap_err();
    assert_eq!(
        again.message(),
        "default_task() can only be defined once per rhaskfile."
    );
    assert_eq!(registry.default_task().as_deref(), Some("build"));
}

#[test]
fn registry_keeps_insertion_order_and_replaces_in_place() {
    let mut registry = TaskRegistry::new();
    registry.insert_task_for_test("b");
    registry.insert_task_for_test("a");
    registry.insert_task_for_test("c");
    registry.insert_task_for_test("a");
    assert_eq!(registry.task_count(), 3);
    let paths: Vec<String> = registry.task_paths().into_iter().cloned().collect();
    assert_eq!(paths, vec!["b".to_string(), "a".to_string(), "c".to_string()]);
    assert!(registry.contains_task("a"));
    assert!(!registry.contains_task("d"));
    assert!(registry.task("c").is_some());
    assert!(registry.task("d").is_none());
    assert!(!registry.contains_group("a"));
    assert!(registry.group("a").is_none());
    assert_eq!(registry.group_count(), 0);
    let (path, task) = registry.task_at(1).expect("second task");
    assert_eq!(path, "a");
    assert!(task.description.is_none());
    assert!(registry.task_at(3).is_none());
    assert!(registry.group_at(0).is_none());
    assert!(registry.root_entries().is_empty());
}
