use indexmap::IndexMap;
use rhask::error::TaskError;
use rhask::task::{
    parse_cli_arguments, prepare_arguments_from_cli, prepare_arguments_from_parts, BuildStack,
    TaskRegistry,
};

fn registry_with_args() -> TaskRegistry {
    let mut registry = TaskRegistry::new();
    let mut stack = BuildStack::new();
    stack.begin_task(&registry, "build").unwrap();
    let params = vec![
        ("profile".to_string(), Some("debug".to_string())),
        ("target".to_string(), Some("x86".to_string())),
    ];
    stack.set_args(params).unwrap();
    stack.end_task(&mut registry).unwrap();
    registry
}

fn registry_with_params(task: &str, params: Vec<(&str, Option<&str>)>) -> TaskRegistry {
    let mut registry = TaskRegistry::new();
    let mut stack = BuildStack::new();
    stack.begin_task(&registry, task).unwrap();
    if !params.is_empty() {
        let pairs = params
            .into_iter()
            .map(|(name, default)| (name.to_string(), default.map(|d| d.to_string())))
            .collect();
        stack.set_args(pairs).unwrap();
    }
    stack.end_task(&mut registry).unwrap();
    registry
}

fn words(items: &[&str]) -> Vec<String> {
    items.iter().map(|item| item.to_string()).collect()
}

fn named_of(pairs: &[(&str, &str)]) -> IndexMap<String, String> {
    let mut named = IndexMap::new();
    for (name, value) in pairs {
        named.insert(name.to_string(), value.to_string());
    }
    named
}

#[test]
fn parse_cli_arguments_supports_mixed_forms() {
    let raw = vec![
        "release".to_string(),
        "--target=x86".to_string(),
        "profile=debug".to_string(),
        "--arch".to_string(),
        "arm64".to_string(),
    ];

    let (positional, named) = parse_cli_arguments(&raw).expect("parse args");

    assert_eq!(positional, vec!["release"]);
    assert_eq!(named.get("target"), Some(&"x86".to_string()));
    assert_eq!(named.get("profile"), Some(&"debug".to_string()));
    assert_eq!(named.get("arch"), Some(&"arm64".to_string()));
}

#[test]
fn prepare_arguments_prioritizes_named_over_positional() {
    let registry = registry_with_args();

    let args = prepare_arguments_from_cli(
        &registry,
        "build",
        &[
            "release".to_string(),
            "--target=wasm32-unknown-unknown".to_string(),
        ],
    )
    .expect("prepare args");

    let collected: Vec<String> = args.into_iter().collect();
    assert_eq!(
        collected,
        vec!["release".to_string(), "wasm32-unknown-unknown".to_string()]
    );
}

#[test]
fn prepare_arguments_reports_unknown_keys() {
    let registry = registry_with_args();

    let err = prepare_arguments_from_cli(&registry, "build", &["--unknown=value".to_string()])
        .unwrap_err();
    assert!(err.message().contains("Unknown argument(s):"));
}

#[test]
fn named_value_overrides_default_and_leaves_other_default() {
    let registry = registry_with_params(
        "build",
        vec![("profile", Some("debug")), ("arch", Some("x86_64"))],
    );
    let task = registry.task("build").expect("task");
    let names: Vec<&str> = task.params.iter().map(|p| p.name.as_str()).collect();
    assert_eq!(names, vec!["arch", "profile"]);

    let args = prepare_arguments_from_cli(&registry, "build", &words(&["--profile=release"]))
        .expect("bind");
    assert_eq!(args, vec!["x86_64".to_string(), "release".to_string()]);
}

#[test]
fn unknown_argument_is_named_in_the_error() {
    let registry = registry_with_args();
    let err = prepare_arguments_from_cli(&registry, "build", &words(&["--unknown=value"]))
        .unwrap_err();
    assert!(matches!(err, TaskError::UnknownArguments(_)));
    assert_eq!(err.message(), "Unknown argument(s): unknown");

    let err = prepare_arguments_from_parts(
        &registry,
        "build",
        Vec::new(),
        named_of(&[("zeta", "1"), ("profile", "p"), ("alpha", "2")]),
    )
    .unwrap_err();
    assert_eq!(err.message(), "Unknown argument(s): zeta, alpha");
}

#[test]
fn excess_positional_is_named_in_the_error() {
    let registry = registry_with_args();
    let err = prepare_arguments_from_cli(&registry, "build", &words(&["a", "b", "c", "d"]))
        .unwrap_err();
    assert!(matches!(err, TaskError::UnexpectedPositional(_)));
    assert_eq!(err.message(), "Unexpected positional argument 'c' provided.");
}

#[test]
fn named_value_pushes_positional_to_the_next_parameter() {
    let registry = registry_with_args();
    let args = prepare_arguments_from_cli(&registry, "build", &words(&["--profile=p", "t"]))
        .expect("bind");
    assert_eq!(args, vec!["p".to_string(), "t".to_string()]);

    let err = prepare_arguments_from_cli(
        &registry,
        "build",
        &words(&["first", "--profile=p", "--target=t"]),
    )
    .unwrap_err();
    assert_eq!(
        err.message(),
        "Unexpected positional argument 'first' provided."
    );
}

#[test]
fn task_without_parameters_accepts_nothing() {
    let registry = registry_with_params("clean", vec![]);
    let args = prepare_arguments_from_cli(&registry, "clean", &[]).expect("no args");
    assert!(args.is_empty());

    let err = prepare_arguments_from_cli(&registry, "clean", &words(&["x"])).unwrap_err();
    assert_eq!(err.message(), "Task 'clean' does not accept arguments.");
    let err = prepare_arguments_from_cli(&registry, "clean", &words(&["--x=1"])).unwrap_err();
    assert!(matches!(err, TaskError::ArgumentsNotAccepted(_)));
}

#[test]
fn missing_argument_is_named_in_the_error() {
    let registry = registry_with_params("release", vec![("version", None), ("channel", Some("stable"))]);
    let err = prepare_arguments_from_cli(&registry, "release", &[]).unwrap_err();
    assert!(matches!(err, TaskError::ArgumentMissing(_)));
    assert_eq!(err.message(), "Argument 'version' is missing.");

    let args = prepare_arguments_from_cli(&registry, "release", &words(&["--version", "v1.2.3"]))
        .expect("bind");
    assert_eq!(args, vec!["stable".to_string(), "v1.2.3".to_string()]);

    let err = prepare_arguments_from_cli(&registry, "release", &words(&["beta"])).unwrap_err();
    assert_eq!(err.message(), "Argument 'version' is missing.");
}

#[test]
fn missing_argument_comes_before_unknown_argument() {
    let registry = registry_with_params("release", vec![("version", None)]);
    let err = prepare_arguments_from_cli(&registry, "release", &words(&["--other=1"])).unwrap_err();
    assert_eq!(err.message(), "Argument 'version' is missing.");
}

#[test]
fn binding_for_an_unregistered_task_is_an_internal_error() {
    let registry = registry_with_args();
    let err = prepare_arguments_from_cli(&registry, "missing", &[]).unwrap_err();
    assert!(matches!(err, TaskError::TaskNotRegistered(_)));
    assert_eq!(err.message(), "Internal error: task 'missing' not found");
}

#[test]
fn bare_double_hyphen_needs_a_name() {
    let err = parse_cli_arguments(&words(&["--"])).unwrap_err();
    assert!(matches!(err, TaskError::ArgumentNameRequired));
    assert_eq!(err.message(), "Argument name required after '--'.");
}

#[test]
fn option_without_value_is_an_error() {
    let err = parse_cli_arguments(&words(&["--arch"])).unwrap_err();
    assert!(matches!(err, TaskError::OptionValueMissing(_)));
    assert_eq!(err.message(), "Option '--arch' is missing a value.");

    let err = parse_cli_arguments(&words(&["--arch", "--other=1"])).unwrap_err();
    assert_eq!(err.message(), "Option '--arch' is missing a value.");

    let err = parse_cli_arguments(&words(&["--arch", "key=value"])).unwrap_err();
    assert_eq!(err.message(), "Option '--arch' is missing a value.");

    let err = parse_cli_arguments(&words(&["--arch", ""])).unwrap_err();
    assert_eq!(err.message(), "Option '--arch' is missing a value.");
}

#[test]
fn empty_argument_name_is_an_error() {
    let err = parse_cli_arguments(&words(&["=value"])).unwrap_err();
    assert!(matches!(err, TaskError::ArgumentNameEmpty));
    assert_eq!(err.message(), "Argument name cannot be empty.");

    let err = parse_cli_arguments(&words(&["--=value"])).unwrap_err();
    assert_eq!(err.message(), "Argument name cannot be empty.");
}

#[test]
fn later_named_value_overwrites_and_keeps_its_first_place() {
    let (positional, named) =
        parse_cli_arguments(&words(&["--a=1", "b=2", "x", "--a", "3", "y", "c=", "--d=e=f"]))
            .expect("parse");
    assert_eq!(positional, vec!["x".to_string(), "y".to_string()]);
    let pairs: Vec<(String, String)> = named.into_iter().collect();
    assert_eq!(
        pairs,
        vec![
            ("a".to_string(), "3".to_string()),
            ("b".to_string(), "2".to_string()),
            ("c".to_string(), "".to_string()),
            ("d".to_string(), "e=f".to_string()),
        ]
    );
}

#[test]
fn single_hyphen_words_are_positional() {
    let (positional, named) = parse_cli_arguments(&words(&["-v", "-", "plain"])).expect("parse");
    assert_eq!(
        positional,
        vec!["-v".to_string(), "-".to_string(), "plain".to_string()]
    );
    assert!(named.is_empty());

    let (positional, named) = parse_cli_arguments(&[]).expect("parse");
    assert!(positional.is_empty());
    assert!(named.is_empty());
}

#[test]
fn option_may_take_a_single_hyphen_word_as_value() {
    let (positional, named) = parse_cli_arguments(&words(&["--level", "-3"])).expect("parse");
    assert!(positional.is_empty());
    assert_eq!(named.get("level"), Some(&"-3".to_string()));
}

#[test]
fn parts_bind_like_tokens() {
    let registry = registry_with_params(
        "target",
        vec![("profile", Some("debug")), ("arch", Some("x86_64"))],
    );
    let args = prepare_arguments_from_parts(
        &registry,
        "target",
        words(&["arm64", "release"]),
        IndexMap::new(),
    )
    .expect("positional");
    assert_eq!(args, vec!["arm64".to_string(), "release".to_string()]);

    let args = prepare_arguments_from_parts(
        &registry,
        "target",
        Vec::new(),
        named_of(&[("arch", "arm64"), ("profile", "release")]),
    )
    .expect("named");
    assert_eq!(args, vec!["arm64".to_string(), "release".to_string()]);

    let args = prepare_arguments_from_parts(
        &registry,
        "target",
        words(&["release"]),
        named_of(&[("arch", "arm64")]),
    )
    .expect("mixed");
    assert_eq!(args, vec!["arm64".to_string(), "release".to_string()]);
}
