use rhask::printer::{format_colored_line, print_list, Line, Stream};
use rhask::task::{
    BuildStack, ListItem, ListItemKind, ListMessageLevel, ListOutput, ListRenderMode,
    TaskRegistry,
};

fn sample_registry() -> TaskRegistry {
    let mut registry = TaskRegistry::new();
    let mut stack = BuildStack::new();
    stack.begin_group(&registry, "build_suite").unwrap();
    stack.set_description("Build things").unwrap();
    stack.begin_task(&registry, "build_debug").unwrap();
    stack.set_description("Debug build").unwrap();
    stack.end_task(&mut registry).unwrap();
    stack.begin_group(&registry, "release_flow").unwrap();
    stack.begin_task(&registry, "deploy_staging").unwrap();
    stack.set_description("Deploy to staging").unwrap();
    stack.end_task(&mut registry).unwrap();
    stack.end_group(&mut registry).unwrap();
    stack.end_group(&mut registry).unwrap();
    stack.begin_group(&registry, "ops_suite").unwrap();
    stack.begin_group(&registry, "release_flow").unwrap();
    stack.end_group(&mut registry).unwrap();
    stack.end_group(&mut registry).unwrap();
    stack.begin_task(&registry, "clean").unwrap();
    stack.set_description("Remove build artifacts").unwrap();
    stack.end_task(&mut registry).unwrap();
    registry
}

fn item_rows(output: &ListOutput) -> Vec<(ListItemKind, usize, String, String, Option<String>)> {
    output
        .items
        .iter()
        .map(|item| {
            (
                item.kind,
                item.depth,
                item.name.clone(),
                item.full_name.clone(),
                item.description.clone(),
            )
        })
        .collect()
}

fn row(
    kind: ListItemKind,
    depth: usize,
    name: &str,
    full_name: &str,
    description: Option<&str>,
) -> (ListItemKind, usize, String, String, Option<String>) {
    (
        kind,
        depth,
        name.to_string(),
        full_name.to_string(),
        description.map(|d| d.to_string()),
    )
}

fn texts(lines: &[Line]) -> Vec<(Stream, String)> {
    lines.iter().map(|line| (line.stream, line.text.clone())).collect()
}

fn out(text: &str) -> (Stream, String) {
    (Stream::Stdout, text.to_string())
}

fn err(text: &str) -> (Stream, String) {
    (Stream::Stderr, text.to_string())
}

#[test]
fn listing_walks_the_tree_in_declaration_order() {
    let registry = sample_registry();
    let output = registry.collect_list_output(None);
    assert!(output.messages.is_empty());
    assert_eq!(
        item_rows(&output),
        vec![
            row(ListItemKind::Group, 0, "build_suite", "build_suite", Some("Build things")),
            row(ListItemKind::Task, 1, "build_debug", "build_suite.build_debug", Some("Debug build")),
            row(ListItemKind::Group, 1, "release_flow", "build_suite.release_flow", None),
            row(
                ListItemKind::Task,
                2,
                "deploy_staging",
                "build_suite.release_flow.deploy_staging",
                Some("Deploy to staging")
            ),
            row(ListItemKind::Group, 0, "ops_suite", "ops_suite", None),
            row(ListItemKind::Group, 1, "release_flow", "ops_suite.release_flow", None),
            row(ListItemKind::Task, 0, "clean", "clean", Some("Remove build artifacts")),
        ]
    );
}

#[test]
fn listing_of_one_group_starts_at_depth_zero() {
    let registry = sample_registry();
    let output = registry.collect_list_output(Some("build_suite.release_flow"));
    assert!(output.messages.is_empty());
    assert_eq!(
        item_rows(&output),
        vec![
            row(ListItemKind::Group, 0, "release_flow", "build_suite.release_flow", None),
            row(
                ListItemKind::Task,
                1,
                "deploy_staging",
                "build_suite.release_flow.deploy_staging",
                Some("Deploy to staging")
            ),
        ]
    );
    let by_leaf = registry.collect_list_output(Some(" ops_suite "));
    assert_eq!(
        item_rows(&by_leaf),
        vec![
            row(ListItemKind::Group, 0, "ops_suite", "ops_suite", None),
            row(ListItemKind::Group, 1, "release_flow", "ops_suite.release_flow", None),
        ]
    );
}

#[test]
fn listing_of_an_unknown_group_warns() {
    let registry = sample_registry();
    let output = registry.collect_list_output(Some("unknown_group"));
    assert!(output.items.is_empty());
    assert_eq!(output.messages.len(), 1);
    assert_eq!(output.messages[0].level, ListMessageLevel::Warn);
    assert_eq!(
        output.messages[0].text,
        "Group 'unknown_group' does not exist."
    );
}

#[test]
fn listing_of_an_ambiguous_group_names_the_candidates() {
    let registry = sample_registry();
    let output = registry.collect_list_output(Some("release_flow"));
    assert!(output.items.is_empty());
    let messages: Vec<String> = output.messages.iter().map(|m| m.text.clone()).collect();
    assert_eq!(
        messages,
        vec![
            "Group 'release_flow' matches multiple candidates:".to_string(),
            "  - build_suite.release_flow".to_string(),
            "  - ops_suite.release_flow".to_string(),
            "Please use the fully-qualified name (e.g. parent.child).".to_string(),
        ]
    );
    assert!(output
        .messages
        .iter()
        .all(|m| m.level == ListMessageLevel::Warn));
}

#[test]
fn listing_without_root_entries_shows_every_task() {
    let mut registry = TaskRegistry::new();
    registry.insert_task_for_test("ops.deploy");
    registry.insert_task_for_test("clean");
    let output = registry.collect_list_output(None);
    assert_eq!(
        item_rows(&output),
        vec![
            row(ListItemKind::Task, 0, "deploy", "ops.deploy", None),
            row(ListItemKind::Task, 0, "clean", "clean", None),
        ]
    );
    let empty = TaskRegistry::new().collect_list_output(None);
    assert!(empty.items.is_empty());
    assert!(empty.messages.is_empty());
}

#[test]
fn items_are_shown_by_leaf_name() {
    let item = ListItem::task(3, "a.b.c", Some("desc".to_string()));
    assert_eq!(item.kind, ListItemKind::Task);
    assert_eq!(item.depth, 3);
    assert_eq!(item.name, "c");
    assert_eq!(item.full_name, "a.b.c");
    assert_eq!(item.description.as_deref(), Some("desc"));
    let item = ListItem::group(0, "top", None);
    assert_eq!(item.kind, ListItemKind::Group);
    assert_eq!(item.name, "top");
    assert_eq!(item.full_name, "top");
    assert!(item.description.is_none());
}

#[test]
fn output_collects_items_and_messages() {
    let mut output = ListOutput::default();
    output.push_message(ListMessageLevel::Info, "first".to_string());
    output.push_item(ListItem::task(0, "t", None));
    output.push_message(ListMessageLevel::Error, "second".to_string());
    assert_eq!(output.items.len(), 1);
    assert_eq!(output.messages.len(), 2);
    assert_eq!(output.messages[1].level, ListMessageLevel::Error);
    assert_eq!(output.messages[1].text, "second");
}

#[test]
fn tree_lines_pad_names_per_depth() {
    let registry = sample_registry();
    let output = registry.collect_list_output(None);
    let lines = print_list(&output, ListRenderMode::Tree, false);
    assert_eq!(
        texts(&lines),
        vec![
            out("> build_suite : Build things"),
            out("  - build_debug  : Debug build"),
            out("  > release_flow"),
            out("    - deploy_staging : Deploy to staging"),
            out("> ops_suite  "),
            out("  > release_flow"),
            out("- clean       : Remove build artifacts"),
        ]
    );
}

#[test]
fn flat_lines_show_tasks_by_full_path() {
    let registry = sample_registry();
    let output = registry.collect_list_output(None);
    let lines = print_list(&output, ListRenderMode::Flat, false);
    assert_eq!(
        texts(&lines),
        vec![
            out("build_suite.build_debug                  Debug build"),
            out("build_suite.release_flow.deploy_staging  Deploy to staging"),
            out("clean                                    Remove build artifacts"),
        ]
    );
    let mut bare = ListOutput::default();
    bare.push_item(ListItem::task(0, "a.long_name", None));
    bare.push_item(ListItem::group(0, "a.much_longer_group_name", None));
    bare.push_item(ListItem::task(0, "b", None));
    let lines = print_list(&bare, ListRenderMode::Flat, false);
    assert_eq!(texts(&lines), vec![out("a.long_name"), out("b          ")]);
}

#[test]
fn messages_come_first_on_their_streams() {
    let mut output = ListOutput::default();
    output.push_item(ListItem::task(0, "t", None));
    output.push_message(ListMessageLevel::Warn, "careful".to_string());
    output.push_message(ListMessageLevel::Info, "note".to_string());
    output.push_message(ListMessageLevel::Error, "broken".to_string());
    let lines = print_list(&output, ListRenderMode::Tree, false);
    assert_eq!(
        texts(&lines),
        vec![err("careful"), out("note"), err("broken"), out("- t")]
    );
}

#[test]
fn colored_lines_wrap_the_text_in_escape_codes() {
    assert_eq!(
        format_colored_line(ListItemKind::Group, "> g", Some(" : d")),
        "\u{1b}[48;5;24m\u{1b}[97m> g\u{1b}[97m : d\u{1b}[K\u{1b}[0m"
    );
    assert_eq!(
        format_colored_line(ListItemKind::Group, "> g", None),
        "\u{1b}[48;5;24m\u{1b}[97m> g\u{1b}[K\u{1b}[0m"
    );
    assert_eq!(
        format_colored_line(ListItemKind::Task, "- t", Some(" : d")),
        "\u{1b}[36m- t\u{1b}[0m\u{1b}[90m : d\u{1b}[0m"
    );
    assert_eq!(
        format_colored_line(ListItemKind::Task, "- t", None),
        "\u{1b}[36m- t\u{1b}[0m"
    );

    let mut output = ListOutput::default();
    output.push_item(ListItem::group(0, "g", Some("dg".to_string())));
    output.push_item(ListItem::task(1, "g.task", Some("dt".to_string())));
    output.push_item(ListItem::task(1, "g.t", None));
    let tree = print_list(&output, ListRenderMode::Tree, true);
    assert_eq!(
        texts(&tree),
        vec![
            out("\u{1b}[48;5;24m\u{1b}[97m> g\u{1b}[97m : dg\u{1b}[K\u{1b}[0m"),
            out("\u{1b}[36m  - task\u{1b}[0m\u{1b}[90m : dt\u{1b}[0m"),
            out("\u{1b}[36m  - t   \u{1b}[0m"),
        ]
    );
    let flat = print_list(&output, ListRenderMode::Flat, true);
    assert_eq!(
        texts(&flat),
        vec![
            out("\u{1b}[36mg.task\u{1b}[0m  \u{1b}[90mdt\u{1b}[0m"),
            out("\u{1b}[36mg.t   \u{1b}[0m"),
        ]
    );
}

#[test]
fn padding_counts_characters_not_bytes() {
    let mut output = ListOutput::default();
    output.push_item(ListItem::task(0, "caf\u{e9}", Some("x".to_string())));
    output.push_item(ListItem::task(0, "tea", Some("y".to_string())));
    let lines = print_list(&output, ListRenderMode::Tree, false);
    assert_eq!(
        texts(&lines),
        vec![out("- caf\u{e9} : x"), out("- tea  : y")]
    );
}

#[test]
fn list_renders_the_listing() {
    let registry = sample_registry();
    let lines = registry.list(Some("ops_suite"), ListRenderMode::Tree, false);
    assert_eq!(
        texts(&lines),
        vec![out("> ops_suite"), out("  > release_flow")]
    );
    let lines = registry.list(Some("nowhere"), ListRenderMode::Flat, true);
    assert_eq!(texts(&lines), vec![err("Group 'nowhere' does not exist.")]);

    let mut engine = rhask::engine::ScriptEngine::new("/launch".to_string());
    engine.registry = sample_registry();
    let flat = engine.list_tasks(None, true, false);
    assert_eq!(
        texts(&flat),
        texts(&print_list(
            &engine.registry.collect_list_output(None),
            ListRenderMode::Flat,
            false
        ))
    );
    let tree = engine.list_tasks(Some("build_suite.release_flow"), false, false);
    assert_eq!(
        texts(&tree),
        vec![
            out("> release_flow"),
            out("  - deploy_staging : Deploy to staging"),
        ]
    );
}

#[test]
fn a_group_entry_that_does_not_lie_deeper_is_listed_closed() {
    let mut registry = TaskRegistry::new();
    let mut stack = BuildStack::new();
    stack.begin_group(&registry, "outer.inner").unwrap();
    stack.begin_task(&registry, "t").unwrap();
    stack.end_task(&mut registry).unwrap();
    stack.end_group(&mut registry).unwrap();
    let output = registry.collect_list_output(Some("outer.inner"));
    assert_eq!(
        item_rows(&output),
        vec![
            row(ListItemKind::Group, 0, "inner", "outer.inner", None),
            row(ListItemKind::Task, 1, "t", "outer.inner.t", None),
        ]
    );
    let all = registry.collect_list_output(None);
    assert_eq!(item_rows(&all), item_rows(&output));
    let tasks_iter: Vec<String> = registry
        .tasks_iter()
        .into_iter()
        .map(|(path, _)| path.clone())
        .collect();
    assert_eq!(tasks_iter, vec!["outer.inner.t".to_string()]);
    let groups_iter: Vec<(String, usize)> = registry
        .groups_iter()
        .into_iter()
        .map(|(path, group)| (path.clone(), group.entries.len()))
        .collect();
    assert_eq!(groups_iter, vec![("outer.inner".to_string(), 1)]);
}
