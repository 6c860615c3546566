//! The command line, parsed, and the decision what it asks for.

use vstd::prelude::*;
use crate::completions::Shell;
use crate::engine::script::ScriptEngine;
use crate::error::{TaskError, TaskErrorView};

verus! {

/// The parsed command line.
#[derive(Debug)]
pub struct Cli {
    /// The script to load; the default script where none is given.
    pub file: Option<String>,
    /// The command; none for the default task or the listing.
    pub cmd: Option<Commands>,
}

/// The commands.
#[derive(Debug)]
pub enum Commands {
    /// Show the task list.
    List(ListOptions),
    /// Run a task.
    Run(RunOptions),
    /// Print the names that complete a prefix.
    CompleteTasks(CompleteTasksOptions),
    /// Print the completion script for a shell.
    Completions(CompletionsOptions),
    /// Run a task without the `run` word: the task name, then its
    /// arguments.
    Direct(Vec<String>),
}

/// The options of `list`.
#[derive(Debug)]
pub struct ListOptions {
    /// The group to show; every task where none is given.
    pub group: Option<String>,
    /// Whether to print tasks as flat full paths.
    pub flat: bool,
}

/// The options of `run`.
#[derive(Debug)]
pub struct RunOptions {
    /// The task to run.
    pub task: String,
    /// The arguments passed to the task.
    pub args: Vec<String>,
}

/// The options of `complete-tasks`.
#[derive(Debug)]
pub struct CompleteTasksOptions {
    /// What the names must start with.
    pub prefix: Option<String>,
}

/// The options of `completions`.
#[derive(Debug)]
pub struct CompletionsOptions {
    /// The shell to write the script for.
    pub shell: Shell,
}

/// What a command line asks for.
#[derive(Debug)]
pub enum Dispatch {
    /// Print the completion script for a shell.
    Completions(Shell),
    /// List the tasks: of a group or all, as a tree or flat.
    List { group: Option<String>, flat: bool },
    /// Run a task with arguments.
    Run { task: String, args: Vec<String> },
    /// Print the names that complete a prefix.
    CompleteTasks { prefix: String },
}

/// What a `Dispatch` holds, as plain text.
pub enum DispatchView {
    Completions(Shell),
    List { group: Option<Seq<char>>, flat: bool },
    Run { task: Seq<char>, args: Seq<Seq<char>> },
    CompleteTasks { prefix: Seq<char> },
}

impl View for Dispatch {
    type V = DispatchView;

    open spec fn view(&self) -> DispatchView {
        match self {
            Dispatch::Completions(shell) => DispatchView::Completions(*shell),
            Dispatch::List { group, flat } => DispatchView::List {
                group: group.deep_view(),
                flat: *flat,
            },
            Dispatch::Run { task, args } => DispatchView::Run {
                task: task@,
                args: args.deep_view(),
            },
            Dispatch::CompleteTasks { prefix } => DispatchView::CompleteTasks { prefix: prefix@ },
        }
    }
}

/// What a `Commands` holds, as plain text.
pub enum CommandsView {
    List { group: Option<Seq<char>>, flat: bool },
    Run { task: Seq<char>, args: Seq<Seq<char>> },
    CompleteTasks { prefix: Option<Seq<char>> },
    Completions(Shell),
    Direct(Seq<Seq<char>>),
}

impl View for Commands {
    type V = CommandsView;

    open spec fn view(&self) -> CommandsView {
        match self {
            Commands::List(options) => CommandsView::List {
                group: options.group.deep_view(),
                flat: options.flat,
            },
            Commands::Run(options) => CommandsView::Run {
                task: options.task@,
                args: options.args.deep_view(),
            },
            Commands::CompleteTasks(options) => CommandsView::CompleteTasks {
                prefix: options.prefix.deep_view(),
            },
            Commands::Completions(options) => CommandsView::Completions(options.shell),
            Commands::Direct(words) => CommandsView::Direct(words.deep_view()),
        }
    }
}

impl DeepView for Commands {
    type V = CommandsView;

    open spec fn deep_view(&self) -> CommandsView {
        self@
    }
}

/// What the command `cmd` asks for, given the default task of the script.
///
/// `list`, `run` and `complete-tasks` ask for what they say; a missing
/// prefix is the empty one. The shorthand runs its first word with the
/// others as arguments and fails without a first word. No command at all
/// runs the default task without arguments where the script set one, and
/// lists every task as a tree where it did not.
pub open spec fn dispatched(cmd: Option<CommandsView>, default_task: Option<Seq<char>>) -> Result<
    DispatchView,
    TaskErrorView,
> {
    match cmd {
        Some(CommandsView::List { group, flat }) => Ok(DispatchView::List { group, flat }),
        Some(CommandsView::Run { task, args }) => Ok(DispatchView::Run { task, args }),
        Some(CommandsView::CompleteTasks { prefix }) => Ok(
            DispatchView::CompleteTasks {
                prefix: match prefix {
                    Some(prefix) => prefix,
                    None => Seq::empty(),
                },
            },
        ),
        Some(CommandsView::Completions(shell)) => Ok(DispatchView::Completions(shell)),
        Some(CommandsView::Direct(words)) => if words.len() == 0 {
            Err(TaskErrorView::TaskNameRequired)
        } else {
            Ok(DispatchView::Run { task: words[0], args: words.subrange(1, words.len() as int) })
        },
        None => match default_task {
            Some(task) => Ok(DispatchView::Run { task, args: Seq::empty() }),
            None => Ok(DispatchView::List { group: None, flat: false }),
        },
    }
}

/// The script that `cli` asks to load: the file it names, or
/// `rhaskfile.rhai`.
pub fn script_path(cli: &Cli) -> (path: String)
    ensures
        path@ == match cli.file.deep_view() {
            Some(file) => file,
            None => "rhaskfile.rhai"@,
        },
{
    match &cli.file {
        Some(file) => file.clone(),
        None => "rhaskfile.rhai".to_owned(),
    }
}

/// Whether `cli` asks for something that needs the script: everything does
/// but the completion script.
pub fn needs_script(cli: &Cli) -> (needed: bool)
    ensures
        needed == !(cli.cmd matches Some(Commands::Completions(_))),
{
    match &cli.cmd {
        Some(Commands::Completions(_)) => false,
        _ => true,
    }
}

/// The error for a shorthand command line that names no task.
pub fn missing_task_name_error() -> (error: TaskError)
    ensures
        error@ == TaskErrorView::TaskNameRequired,
{
    TaskError::TaskNameRequired
}

/// Decides what the command `cmd` asks for: see `dispatched`.
pub fn dispatcher(cmd: Option<Commands>, engine: &ScriptEngine) -> (result: Result<
    Dispatch,
    TaskError,
>)
    ensures
        match result {
            Ok(dispatch) => dispatched(cmd.deep_view(), engine.registry@.default_task) == Ok::<
                DispatchView,
                TaskErrorView,
            >(dispatch@),
            Err(error) => dispatched(cmd.deep_view(), engine.registry@.default_task) == Err::<
                DispatchView,
                TaskErrorView,
            >(error@),
        },
{
    match cmd {
        Some(Commands::List(options)) => Ok(
            Dispatch::List { group: options.group, flat: options.flat },
        ),
        Some(Commands::Run(options)) => Ok(Dispatch::Run { task: options.task, args: options.args }),
        Some(Commands::CompleteTasks(options)) => {
            let prefix = match options.prefix {
                Some(prefix) => prefix,
                None => String::new(),
            };
            Ok(Dispatch::CompleteTasks { prefix })
        },
        Some(Commands::Completions(options)) => Ok(Dispatch::Completions(options.shell)),
        Some(Commands::Direct(words)) => {
            let mut words = words;
            if words.len() == 0 {
                return Err(missing_task_name_error());
            }
            let ghost all = words.deep_view();
            let task = words.remove(0);
            assert(words.deep_view() =~= all.subrange(1, all.len() as int));
            Ok(Dispatch::Run { task, args: words })
        },
        None => match engine.default_task() {
            Some(task) => {
                let args: Vec<String> = Vec::new();
                assert(args.deep_view() =~= Seq::<Seq<char>>::empty());
                Ok(Dispatch::Run { task, args })
            },
            None => Ok(Dispatch::List { group: None, flat: false }),
        },
    }
}

/// Decides what the command line `cli` asks for: see `dispatched`. For
/// everything but the completion script, the script is to be loaded into
/// `engine` first.
pub fn run_with_cli(cli: Cli, engine: &ScriptEngine) -> (result: Result<Dispatch, TaskError>)
    ensures
        match result {
            Ok(dispatch) => dispatched(cli.cmd.deep_view(), engine.registry@.default_task) == Ok::<
                DispatchView,
                TaskErrorView,
            >(dispatch@),
            Err(error) => dispatched(cli.cmd.deep_view(), engine.registry@.default_task) == Err::<
                DispatchView,
                TaskErrorView,
            >(error@),
        },
{
    match cli.cmd {
        Some(Commands::Completions(options)) => Ok(Dispatch::Completions(options.shell)),
        other => dispatcher(other, engine),
    }
}

} // verus!
