use rhask::cli::{Cli, Commands, ListOptions};
use rhask::engine::ScriptEngine;
use rhask::run_with_cli;

fn fixture_rhaskfile() -> String {
    "tests/rhaskfile.rhai".to_string()
}

#[test]
fn run_with_cli_lists_tasks_successfully() {
    let cli = Cli {
        file: Some(fixture_rhaskfile()),
        cmd: Some(Commands::List(ListOptions {
            group: None,
            flat: false,
        })),
    };
    let engine = ScriptEngine::new(".".to_string());

    run_with_cli(cli, &engine).expect("list command should succeed");
}

#[test]
fn run_with_cli_propagates_errors() {
    let cli = Cli {
        file: Some(fixture_rhaskfile()),
        cmd: Some(Commands::Direct(Vec::new())),
    };
    let engine = ScriptEngine::new(".".to_string());

    assert!(run_with_cli(cli, &engine).is_err());
}
