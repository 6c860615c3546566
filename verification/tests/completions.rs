use rhask::completions::{bash, fish, print, task_candidates, zsh, Shell};
use rhask::task::{BuildStack, TaskRegistry};
use rhask::text::{contains, has_prefix, replace_all, replace_first};

const GENERATED_BASH: &str = "_rhask() {\n    local x\n}\ncomplete -F _rhask -o bashdefault rhask\n# _rhask()\n";

const ZSH_REGISTRATION: &str = "if [ \"$funcstack[1]\" = \"_rhask\" ]; then\n    _rhask \"$@\"\nelse\n    compdef _rhask rhask\nfi\n";

#[test]
fn bash_patch_renames_the_generated_function_once() {
    let patched = bash::patch(GENERATED_BASH.to_string());
    assert!(patched.starts_with("__rhask_base() {\n    local x\n}\n"));
    assert!(patched.contains("# _rhask()\n"));
    assert_eq!(patched.matches("__rhask_base()").count(), 1);
    let expected = format!(
        "{}{}{}",
        GENERATED_BASH.replacen("_rhask()", "__rhask_base()", 1),
        bash::DYNAMIC_COMPLETIONS,
        bash::REREGISTER
    );
    assert_eq!(patched, expected);
    assert!(patched.contains("__rhask_dynamic_tasks()"));
    assert!(patched.ends_with("    complete -F _rhask -o bashdefault -o default rhask\nfi\n"));
}

#[test]
fn bash_patch_leaves_other_scripts_alone() {
    let other = "complete -F _other other\n".to_string();
    assert_eq!(bash::patch(other.clone()), other);
    assert_eq!(bash::patch(String::new()), "");
}

#[test]
fn zsh_patch_drops_the_generated_registration() {
    let generated = format!("#compdef rhask\n_rhask() {{\n}}\n{}", ZSH_REGISTRATION);
    let patched = zsh::patch(generated.clone());
    let expected = format!(
        "#compdef rhask\n__rhask_base() {{\n}}\n{}",
        zsh::DYNAMIC_COMPLETIONS
    );
    assert_eq!(patched, expected);
    assert_eq!(patched.matches("compdef _rhask rhask").count(), 1);
    assert!(patched.contains("__rhask_dynamic_tasks"));
    assert!(patched.contains("dynamic=( ${(f)\"$(__rhask_dynamic_tasks \"$cur\")\"} )"));
    assert!(patched.contains("compstate[insert]=''"));
    assert!(patched.contains("_describe -t rhask-tasks 'task or group' described"));
    assert_eq!(zsh::REGISTRATION, ZSH_REGISTRATION);

    let other = "nothing to see\n".to_string();
    assert_eq!(zsh::patch(other.clone()), other);
}

#[test]
fn fish_patch_drops_the_helper_completions() {
    let generated = format!(
        "complete -c rhask -l file\n{}complete -c rhask -a list\n{}{}",
        fish::DROP_TOP_LEVEL,
        fish::DROP_SUBCOMMAND,
        fish::DROP_TOP_LEVEL
    );
    let patched = fish::patch(generated);
    let expected = format!(
        "complete -c rhask -l file\ncomplete -c rhask -a list\n{}",
        fish::DYNAMIC_COMPLETIONS
    );
    assert_eq!(patched, expected);
    assert!(patched.contains("__fish_rhask_task_candidates"));
    assert!(patched.contains("__fish_rhask_should_complete_tasks_run"));
    assert_eq!(fish::patch(String::new()), fish::DYNAMIC_COMPLETIONS);
}

#[test]
fn print_patches_by_shell() {
    let generated = GENERATED_BASH.to_string();
    assert_eq!(print(Shell::Bash, generated.clone()), bash::patch(generated.clone()));
    assert_eq!(print(Shell::Zsh, generated.clone()), zsh::patch(generated.clone()));
    assert_eq!(print(Shell::Fish, generated.clone()), fish::patch(generated.clone()));
    assert_eq!(print(Shell::Other, generated.clone()), generated);
}

#[test]
fn text_search_agrees_with_the_standard_library() {
    let texts = ["", "a", "aa", "aaa", "abab", "ababab", "xabay", "caf\u{e9}caf\u{e9}", "aXbXc"];
    let patterns = ["", "a", "aa", "ab", "aba", "X", "\u{e9}c", "zz"];
    let fillers = ["", "-", "aa", "\u{fc}"];
    for text in texts {
        for pattern in patterns {
            assert_eq!(contains(text, pattern), text.contains(pattern), "{text:?} {pattern:?}");
            assert_eq!(
                has_prefix(text, pattern),
                text.starts_with(pattern),
                "{text:?} {pattern:?}"
            );
            for filler in fillers {
                assert_eq!(
                    replace_first(text, pattern, filler),
                    text.replacen(pattern, filler, 1),
                    "{text:?} {pattern:?} {filler:?}"
                );
                if !pattern.is_empty() {
                    assert_eq!(
                        replace_all(text, pattern, filler),
                        text.replace(pattern, filler),
                        "{text:?} {pattern:?} {filler:?}"
                    );
                }
            }
        }
    }
    assert_eq!(replace_all("abc", "", "-"), "abc");
    assert_eq!(replace_all("aaaa", "aa", "b"), "bb");
    assert_eq!(replace_all("aaa", "aa", "b"), "ba");
}

#[test]
fn candidates_are_sorted_unique_and_filtered() {
    let mut registry = TaskRegistry::new();
    let mut stack = BuildStack::new();
    stack.begin_group(&registry, "build_suite").unwrap();
    stack.begin_group(&registry, "release_flow").unwrap();
    stack.end_group(&mut registry).unwrap();
    stack.begin_task(&registry, "build").unwrap();
    stack.end_task(&mut registry).unwrap();
    stack.end_group(&mut registry).unwrap();
    stack.begin_task(&registry, "build").unwrap();
    stack.end_task(&mut registry).unwrap();
    stack.begin_task(&registry, "clean").unwrap();
    stack.end_task(&mut registry).unwrap();
    stack.begin_task(&registry, "Build").unwrap();
    stack.end_task(&mut registry).unwrap();

    assert_eq!(
        task_candidates(&registry, "build"),
        vec![
            "build".to_string(),
            "build_suite".to_string(),
            "build_suite.build".to_string(),
            "build_suite.release_flow".to_string(),
        ]
    );
    assert_eq!(
        task_candidates(&registry, ""),
        vec![
            "Build".to_string(),
            "build".to_string(),
            "build_suite".to_string(),
            "build_suite.build".to_string(),
            "build_suite.release_flow".to_string(),
            "clean".to_string(),
        ]
    );
    assert!(task_candidates(&registry, "x").is_empty());
    assert_eq!(task_candidates(&registry, "clean"), vec!["clean".to_string()]);
    assert!(task_candidates(&registry, "cleaner").is_empty());
}

#[test]
fn a_path_that_names_a_task_and_a_group_is_listed_once() {
    let mut registry = TaskRegistry::new();
    let mut stack = BuildStack::new();
    stack.begin_group(&registry, "same").unwrap();
    stack.end_group(&mut registry).unwrap();
    registry.insert_task_for_test("same");
    registry.insert_task_for_test("other");
    assert_eq!(
        task_candidates(&registry, ""),
        vec!["other".to_string(), "same".to_string()]
    );
}
