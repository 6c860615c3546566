//! The argument binder: from command-line tokens to positional and named
//! values, and from those to one value for each parameter that a task
//! declares.

use vstd::prelude::*;
use indexmap::IndexMap;
use crate::error::{TaskError, TaskErrorView};
use crate::ordered_map::{
    keys_of, named_entries, named_map_get_index, named_map_insert, named_map_len, named_map_new,
    named_map_shift_remove, named_values, names_of, with_value,
};
use crate::task::model::{ParameterSpec, ParameterSpecView};
use crate::task::registry::TaskRegistry;
use crate::text::{
    contains_char, first_index_of, has_option_prefix, is_option, lemma_first_index_of, split_once,
};

verus! {

/// One argument read from the command line.
pub enum ArgumentView {
    /// A bare value.
    Positional(Seq<char>),
    /// A value with the name of the parameter it is meant for.
    Named { name: Seq<char>, value: Seq<char> },
}

/// The arguments of a command line, sorted into positional values in the
/// order given and named values in the order in which each name first came.
pub struct ParsedArgumentsView {
    pub positional: Seq<Seq<char>>,
    pub named: Seq<(Seq<char>, Seq<char>)>,
}

/// What `text` of the form `name=value` says: it splits at the first `=`,
/// and the name must not be empty.
pub open spec fn read_pair(text: Seq<char>) -> Result<ArgumentView, TaskErrorView> {
    let at = first_index_of(text, '=');
    if at == 0 {
        Err(TaskErrorView::ArgumentNameEmpty)
    } else {
        Ok(
            ArgumentView::Named {
                name: text.subrange(0, at),
                value: text.subrange(at + 1, text.len() as int),
            },
        )
    }
}

/// Whether `token` is an option that takes the token after it as its value:
/// it starts with `--`, names something, holds no `=`, and the token after
/// it exists, is not empty, is no option itself and holds no `=`.
pub open spec fn takes_next(token: Seq<char>, next: Option<Seq<char>>) -> bool {
    &&& is_option(token)
    &&& token.len() > 2
    &&& !token.skip(2).contains('=')
    &&& next matches Some(value)
    &&& value.len() > 0
    &&& !is_option(value)
    &&& !value.contains('=')
}

/// What `token` says, given the token after it.
///
/// `--name=value` and `name=value` are named values. `--name` takes the
/// next token as its value where `takes_next` allows it and is an error
/// otherwise. A bare `--` is an error. Anything else is a positional value.
pub open spec fn read_token(token: Seq<char>, next: Option<Seq<char>>) -> Result<
    ArgumentView,
    TaskErrorView,
> {
    if is_option(token) {
        let rest = token.skip(2);
        if rest.len() == 0 {
            Err(TaskErrorView::ArgumentNameRequired)
        } else if rest.contains('=') {
            read_pair(rest)
        } else if takes_next(token, next) {
            Ok(ArgumentView::Named { name: rest, value: next->0 })
        } else {
            Err(TaskErrorView::OptionValueMissing(rest))
        }
    } else if token.contains('=') {
        read_pair(token)
    } else {
        Ok(ArgumentView::Positional(token))
    }
}

/// The token after the first of `tokens`, if there is one.
pub open spec fn second_of(tokens: Seq<Seq<char>>) -> Option<Seq<char>> {
    if tokens.len() > 1 {
        Some(tokens[1])
    } else {
        None
    }
}

/// The arguments that `tokens` spell, read from left to right, or the first
/// error met.
pub open spec fn arguments_of(tokens: Seq<Seq<char>>) -> Result<Seq<ArgumentView>, TaskErrorView>
    decreases tokens.len(),
{
    if tokens.len() == 0 {
        Ok(Seq::empty())
    } else {
        let used: int = if takes_next(tokens[0], second_of(tokens)) {
            2
        } else {
            1
        };
        match read_token(tokens[0], second_of(tokens)) {
            Err(error) => Err(error),
            Ok(argument) => match arguments_of(tokens.skip(used)) {
                Err(error) => Err(error),
                Ok(rest) => Ok(seq![argument] + rest),
            },
        }
    }
}

/// `arguments` sorted into positional and named values. A name given again
/// keeps its first place and takes the later value.
pub open spec fn collect_arguments(arguments: Seq<ArgumentView>) -> ParsedArgumentsView
    decreases arguments.len(),
{
    if arguments.len() == 0 {
        ParsedArgumentsView { positional: Seq::empty(), named: Seq::empty() }
    } else {
        let before = collect_arguments(arguments.drop_last());
        match arguments.last() {
            ArgumentView::Positional(value) => ParsedArgumentsView {
                positional: before.positional.push(value),
                named: before.named,
            },
            ArgumentView::Named { name, value } => ParsedArgumentsView {
                positional: before.positional,
                named: with_value(before.named, name, value),
            },
        }
    }
}

/// What the command-line tokens `tokens` parse to.
pub open spec fn parse_tokens(tokens: Seq<Seq<char>>) -> Result<
    ParsedArgumentsView,
    TaskErrorView,
> {
    match arguments_of(tokens) {
        Ok(arguments) => Ok(collect_arguments(arguments)),
        Err(error) => Err(error),
    }
}

/// `values` followed by what `rest` yields, or the error of `rest`.
pub open spec fn after<A>(values: Seq<A>, rest: Result<Seq<A>, TaskErrorView>) -> Result<
    Seq<A>,
    TaskErrorView,
> {
    match rest {
        Ok(more) => Ok(values + more),
        Err(error) => Err(error),
    }
}

/// One value for each of `params`, in their order.
///
/// Each parameter takes the named value given under its name, which is
/// thereby used up; else the next positional value not yet taken; else its
/// default; else binding fails for want of that argument. Once every
/// parameter has its value, a positional value left over is an error, and
/// so are named values left over.
pub open spec fn bind_each(
    params: Seq<ParameterSpecView>,
    positional: Seq<Seq<char>>,
    named: Seq<(Seq<char>, Seq<char>)>,
) -> Result<Seq<Seq<char>>, TaskErrorView>
    decreases params.len(),
{
    if params.len() == 0 {
        if positional.len() > 0 {
            Err(TaskErrorView::UnexpectedPositional(positional[0]))
        } else if named.len() > 0 {
            Err(TaskErrorView::UnknownArguments(names_of(named)))
        } else {
            Ok(Seq::empty())
        }
    } else {
        let param = params[0];
        let at = first_index_of(names_of(named), param.name);
        if at < named.len() {
            after(seq![named[at].1], bind_each(params.drop_first(), positional, named.remove(at)))
        } else if positional.len() > 0 {
            after(seq![positional[0]], bind_each(params.drop_first(), positional.drop_first(), named))
        } else if param.default is Some {
            after(seq![param.default->0], bind_each(params.drop_first(), positional, named))
        } else {
            Err(TaskErrorView::ArgumentMissing(param.name))
        }
    }
}

/// The values that a task named `task_name` with parameters `params` is
/// called with, given `positional` and `named` values. A task without
/// parameters accepts no values at all.
pub open spec fn bind_arguments(
    task_name: Seq<char>,
    params: Seq<ParameterSpecView>,
    positional: Seq<Seq<char>>,
    named: Seq<(Seq<char>, Seq<char>)>,
) -> Result<Seq<Seq<char>>, TaskErrorView> {
    if params.len() == 0 {
        if positional.len() == 0 && named.len() == 0 {
            Ok(Seq::empty())
        } else {
            Err(TaskErrorView::ArgumentsNotAccepted(task_name))
        }
    } else {
        bind_each(params, positional, named)
    }
}

/// The names that `params` declare.
pub open spec fn declared_names(params: Seq<ParameterSpecView>) -> Seq<Seq<char>> {
    params.map_values(|param: ParameterSpecView| param.name)
}

/// How many of `params` find no named value in `named`, each name in
/// `named` serving one parameter only.
pub open spec fn unnamed_count(
    params: Seq<ParameterSpecView>,
    named: Seq<(Seq<char>, Seq<char>)>,
) -> nat
    decreases params.len(),
{
    if params.len() == 0 {
        0
    } else {
        let at = first_index_of(names_of(named), params[0].name);
        if at < named.len() {
            unnamed_count(params.drop_first(), named.remove(at))
        } else {
            1 + unnamed_count(params.drop_first(), named)
        }
    }
}

/// A named value whose name no parameter declares makes binding fail,
/// whatever else was given; and where the failure reports unknown arguments,
/// that name is among those reported.
pub proof fn lemma_undeclared_name_fails(
    task_name: Seq<char>,
    params: Seq<ParameterSpecView>,
    positional: Seq<Seq<char>>,
    named: Seq<(Seq<char>, Seq<char>)>,
    name: Seq<char>,
)
    requires
        names_of(named).contains(name),
        !declared_names(params).contains(name),
    ensures
        bind_arguments(task_name, params, positional, named) is Err,
        bind_arguments(task_name, params, positional, named) matches Err(
            TaskErrorView::UnknownArguments(names),
        ) ==> names.contains(name),
{
    lemma_undeclared_name_fails_each(params, positional, named, name);
}

proof fn lemma_undeclared_name_fails_each(
    params: Seq<ParameterSpecView>,
    positional: Seq<Seq<char>>,
    named: Seq<(Seq<char>, Seq<char>)>,
    name: Seq<char>,
)
    requires
        names_of(named).contains(name),
        !declared_names(params).contains(name),
    ensures
        bind_each(params, positional, named) is Err,
        bind_each(params, positional, named) matches Err(TaskErrorView::UnknownArguments(names))
            ==> names.contains(name),
    decreases params.len(),
{
    if params.len() > 0 {
        let param = params[0];
        let rest = params.drop_first();
        assert(declared_names(params)[0] == param.name);
        assert forall|i: int| 0 <= i < rest.len() implies declared_names(rest)[i] != name by {
            assert(declared_names(params)[i + 1] == rest[i].name);
        }
        let at = first_index_of(names_of(named), param.name);
        lemma_first_index_of(names_of(named), param.name);
        let j = choose|j: int| 0 <= j < names_of(named).len() && names_of(named)[j] == name;
        if at < named.len() {
            let fewer = named.remove(at);
            assert(j != at);
            if j < at {
                assert(names_of(fewer)[j] == name);
            } else {
                assert(names_of(fewer)[j - 1] == name);
            }
            lemma_undeclared_name_fails_each(rest, positional, fewer, name);
        } else if positional.len() > 0 {
            lemma_undeclared_name_fails_each(rest, positional.drop_first(), named, name);
        } else if param.default is Some {
            lemma_undeclared_name_fails_each(rest, positional, named, name);
        }
    }
}

/// Where every parameter gets its value and no positional value is left
/// over, named values that no parameter took are reported, all of them, in
/// the order given.
pub proof fn lemma_unknown_names_reported(
    params: Seq<ParameterSpecView>,
    positional: Seq<Seq<char>>,
    named: Seq<(Seq<char>, Seq<char>)>,
)
    requires
        bind_each(params, positional, named) matches Err(TaskErrorView::UnknownArguments(_)),
    ensures
        bind_each(params, positional, named) matches Err(TaskErrorView::UnknownArguments(names))
            && names.len() > 0 && forall|name: Seq<char>| #[trigger]
            names.contains(name) ==> names_of(named).contains(name),
    decreases params.len(),
{
    if params.len() > 0 {
        let param = params[0];
        let rest = params.drop_first();
        let at = first_index_of(names_of(named), param.name);
        lemma_first_index_of(names_of(named), param.name);
        if at < named.len() {
            let fewer = named.remove(at);
            lemma_unknown_names_reported(rest, positional, fewer);
            let names = bind_each(rest, positional, fewer)->Err_0->UnknownArguments_0;
            assert forall|name: Seq<char>| #[trigger] names.contains(name) implies names_of(
                named,
            ).contains(name) by {
                let j = choose|j: int| 0 <= j < fewer.len() && names_of(fewer)[j] == name;
                if j < at {
                    assert(names_of(named)[j] == name);
                } else {
                    assert(names_of(named)[j + 1] == name);
                }
            }
        } else if positional.len() > 0 {
            lemma_unknown_names_reported(rest, positional.drop_first(), named);
        } else if param.default is Some {
            lemma_unknown_names_reported(rest, positional, named);
        }
    } else {
        let names = names_of(named);
        assert(names.len() == named.len());
    }
}

/// For a task that declares parameters, more positional values than
/// declared parameters make binding fail, and the error names the first
/// value that no parameter took.
pub proof fn lemma_excess_positional_rejected(
    task_name: Seq<char>,
    params: Seq<ParameterSpecView>,
    positional: Seq<Seq<char>>,
    named: Seq<(Seq<char>, Seq<char>)>,
)
    requires
        params.len() > 0,
        positional.len() > params.len(),
    ensures
        unnamed_count(params, named) <= params.len(),
        bind_arguments(task_name, params, positional, named) == Err::<
            Seq<Seq<char>>,
            TaskErrorView,
        >(TaskErrorView::UnexpectedPositional(positional[unnamed_count(params, named) as int])),
{
    lemma_excess_positional_fails(params, positional, named);
}

/// More positional values than parameters make binding fail, and the error
/// names the first value that no parameter took.
pub proof fn lemma_excess_positional_fails(
    params: Seq<ParameterSpecView>,
    positional: Seq<Seq<char>>,
    named: Seq<(Seq<char>, Seq<char>)>,
)
    requires
        positional.len() > params.len(),
    ensures
        unnamed_count(params, named) <= params.len(),
        bind_each(params, positional, named) == Err::<Seq<Seq<char>>, TaskErrorView>(
            TaskErrorView::UnexpectedPositional(positional[unnamed_count(params, named) as int]),
        ),
    decreases params.len(),
{
    if params.len() > 0 {
        let param = params[0];
        let rest = params.drop_first();
        let at = first_index_of(names_of(named), param.name);
        if at < named.len() {
            lemma_excess_positional_fails(rest, positional, named.remove(at));
        } else {
            lemma_excess_positional_fails(rest, positional.drop_first(), named);
        }
    }
}

/// One argument read from the command line.
enum Argument {
    Positional(String),
    Named { name: String, value: String },
}

impl View for Argument {
    type V = ArgumentView;

    closed spec fn view(&self) -> ArgumentView {
        match self {
            Argument::Positional(value) => ArgumentView::Positional(value@),
            Argument::Named { name, value } => ArgumentView::Named { name: name@, value: value@ },
        }
    }
}

/// Reads text of the form `name=value`.
fn read_pair_text(text: &str) -> (result: Result<Argument, TaskError>)
    requires
        text@.contains('='),
    ensures
        match result {
            Ok(argument) => read_pair(text@) == Ok::<ArgumentView, TaskErrorView>(argument@),
            Err(error) => read_pair(text@) == Err::<ArgumentView, TaskErrorView>(error@),
        },
{
    proof {
        lemma_first_index_of(text@, '=');
    }
    match split_once(text, '=') {
        Some((name, value)) => {
            if name.unicode_len() == 0 {
                Err(TaskError::ArgumentNameEmpty)
            } else {
                Ok(Argument::Named { name: name.to_owned(), value: value.to_owned() })
            }
        },
        None => Err(TaskError::ArgumentNameEmpty),
    }
}

/// Tells whether `value` can serve as the value of the option before it.
fn is_option_value(value: &str) -> (fits: bool)
    ensures
        fits == (value@.len() > 0 && !is_option(value@) && !value@.contains('=')),
{
    value.unicode_len() > 0 && !has_option_prefix(value) && !contains_char(value, '=')
}

/// Reads one token, given the token after it. Tells with the argument
/// whether the token after it was taken as its value.
fn read_argument(token: &str, next: Option<&String>) -> (result: Result<
    (Argument, bool),
    TaskError,
>)
    ensures
        match result {
            Ok((argument, took_next)) => read_token(token@, next.deep_view()) == Ok::<
                ArgumentView,
                TaskErrorView,
            >(argument@) && took_next == takes_next(token@, next.deep_view()),
            Err(error) => read_token(token@, next.deep_view()) == Err::<
                ArgumentView,
                TaskErrorView,
            >(error@),
        },
{
    if has_option_prefix(token) {
        let length = token.unicode_len();
        let rest = token.substring_char(2, length);
        assert(rest@ =~= token@.skip(2));
        if rest.unicode_len() == 0 {
            return Err(TaskError::ArgumentNameRequired);
        }
        if contains_char(rest, '=') {
            return match read_pair_text(rest) {
                Ok(argument) => Ok((argument, false)),
                Err(error) => Err(error),
            };
        }
        match next {
            Some(value) => {
                if is_option_value(value.as_str()) {
                    return Ok(
                        (Argument::Named { name: rest.to_owned(), value: value.clone() }, true),
                    );
                }
            },
            None => {},
        }
        Err(TaskError::OptionValueMissing(rest.to_owned()))
    } else if contains_char(token, '=') {
        match read_pair_text(token) {
            Ok(argument) => Ok((argument, false)),
            Err(error) => Err(error),
        }
    } else {
        Ok((Argument::Positional(token.to_owned()), false))
    }
}

/// Sorts the command-line tokens `raw_args` into positional and named
/// values: see `parse_tokens`.
pub fn parse_cli_arguments(raw_args: &[String]) -> (result: Result<
    (Vec<String>, IndexMap<String, String>),
    TaskError,
>)
    ensures
        match result {
            Ok((positional, named)) => parse_tokens(raw_args.deep_view()) == Ok::<
                ParsedArgumentsView,
                TaskErrorView,
            >(
                ParsedArgumentsView {
                    positional: positional.deep_view(),
                    named: named_values(named),
                },
            ),
            Err(error) => parse_tokens(raw_args.deep_view()) == Err::<
                ParsedArgumentsView,
                TaskErrorView,
            >(error@),
        },
{
    let ghost tokens = raw_args.deep_view();
    let mut positional: Vec<String> = Vec::new();
    let mut named = named_map_new();
    let ghost mut done: Seq<ArgumentView> = Seq::empty();
    let mut i: usize = 0;
    proof {
        assert(tokens.skip(0) =~= tokens);
        assert(positional.deep_view() =~= Seq::<Seq<char>>::empty());
        assert(named_values(named) =~= Seq::<(Seq<char>, Seq<char>)>::empty());
        match arguments_of(tokens) {
            Ok(all) => {
                assert(done + all =~= all);
            },
            Err(_) => {},
        }
    }
    while i < raw_args.len()
        invariant
            i <= raw_args.len(),
            tokens == raw_args.deep_view(),
            arguments_of(tokens) == after(done, arguments_of(tokens.skip(i as int))),
            positional.deep_view() == collect_arguments(done).positional,
            named_values(named) == collect_arguments(done).named,
        decreases raw_args.len() - i,
    {
        let ghost remaining = tokens.skip(i as int);
        let token = &raw_args[i];
        let next: Option<&String> = if i + 1 < raw_args.len() {
            Some(&raw_args[i + 1])
        } else {
            None
        };
        proof {
            assert(remaining[0] == token@);
            assert(next.deep_view() == second_of(remaining));
        }
        let (argument, took_next) = match read_argument(token.as_str(), next) {
            Ok(read) => read,
            Err(error) => {
                return Err(error);
            },
        };
        let ghost used: int = if took_next {
            2
        } else {
            1
        };
        proof {
            assert(remaining.skip(used) =~= tokens.skip(i + used));
            let grown = done.push(argument@);
            assert(grown.drop_last() =~= done);
            match arguments_of(remaining.skip(used)) {
                Ok(rest) => {
                    assert(done + (seq![argument@] + rest) =~= grown + rest);
                },
                Err(_) => {},
            }
        }
        match argument {
            Argument::Positional(value) => {
                let ghost before = positional.deep_view();
                positional.push(value);
                assert(positional.deep_view() =~= before.push(value@));
            },
            Argument::Named { name, value } => {
                let ghost before = named_entries(named);
                proof {
                    lemma_first_index_of(keys_of(before), name@);
                    assert(keys_of(before) =~= names_of(named_values(named)));
                }
                named_map_insert(&mut named, name, value);
                assert(named_values(named) =~= with_value(
                    collect_arguments(done).named,
                    name@,
                    value@,
                ));
            },
        }
        proof {
            done = done.push(argument@);
        }
        if took_next {
            i += 2;
        } else {
            i += 1;
        }
    }
    Ok((positional, named))
}

/// The names of the values in `named`, in order.
fn names_in(named: &IndexMap<String, String>) -> (names: Vec<String>)
    ensures
        names.deep_view() == names_of(named_values(*named)),
{
    let mut names: Vec<String> = Vec::new();
    let count = named_map_len(named);
    let mut i: usize = 0;
    while i < count
        invariant
            i <= count,
            count == named_entries(*named).len(),
            names.len() == i,
            forall|j: int| 0 <= j < i ==> names[j]@ == named_entries(*named)[j].0@,
        decreases count - i,
    {
        match named_map_get_index(named, i) {
            Some((name, _)) => {
                names.push(name.clone());
            },
            None => {},
        }
        i += 1;
    }
    assert(names.deep_view() =~= names_of(named_values(*named)));
    names
}

/// One value for each of `params`: see `bind_each`.
fn bind_parameters(
    params: &Vec<ParameterSpec>,
    positional: Vec<String>,
    named: IndexMap<String, String>,
) -> (result: Result<Vec<String>, TaskError>)
    ensures
        match result {
            Ok(values) => bind_each(params.deep_view(), positional.deep_view(), named_values(named))
                == Ok::<Seq<Seq<char>>, TaskErrorView>(values.deep_view()),
            Err(error) => bind_each(params.deep_view(), positional.deep_view(), named_values(named))
                == Err::<Seq<Seq<char>>, TaskErrorView>(error@),
        },
{
    let ghost all = params.deep_view();
    let ghost given = positional.deep_view();
    let ghost goal = bind_each(all, given, named_values(named));
    let mut unused = named;
    let mut values: Vec<String> = Vec::new();
    let mut taken: usize = 0;
    let mut i: usize = 0;
    proof {
        assert(all.skip(0) =~= all);
        assert(given.skip(0) =~= given);
        assert(values.deep_view() =~= Seq::<Seq<char>>::empty());
        match goal {
            Ok(bound) => {
                assert(values.deep_view() + bound =~= bound);
            },
            Err(_) => {},
        }
    }
    while i < params.len()
        invariant
            i <= params.len(),
            taken <= positional.len(),
            all == params.deep_view(),
            given == positional.deep_view(),
            goal == bind_each(all, given, named_values(named)),
            goal == after(
                values.deep_view(),
                bind_each(all.skip(i as int), given.skip(taken as int), named_values(unused)),
            ),
        decreases params.len() - i,
    {
        let param = &params[i];
        let ghost rest = all.skip(i as int);
        let ghost left = given.skip(taken as int);
        let ghost pairs = named_values(unused);
        let ghost so_far = values.deep_view();
        proof {
            assert(rest[0] == param@);
            assert(rest.drop_first() =~= all.skip(i + 1));
            assert(keys_of(named_entries(unused)) =~= names_of(pairs));
            lemma_first_index_of(names_of(pairs), param.name@);
        }
        let ghost at = first_index_of(names_of(pairs), param.name@);
        match named_map_shift_remove(&mut unused, param.name.as_str()) {
            Some(value) => {
                proof {
                    assert(named_values(unused) =~= pairs.remove(at));
                    match bind_each(rest.drop_first(), left, pairs.remove(at)) {
                        Ok(more) => {
                            assert(so_far + (seq![value@] + more) =~= so_far.push(value@) + more);
                        },
                        Err(_) => {},
                    }
                }
                values.push(value);
                assert(values.deep_view() =~= so_far.push(value@));
            },
            None => {
                assert(named_values(unused) =~= pairs);
                if taken < positional.len() {
                    let value = positional[taken].clone();
                    proof {
                        assert(left[0] == value@);
                        assert(left.drop_first() =~= given.skip(taken + 1));
                        match bind_each(rest.drop_first(), left.drop_first(), pairs) {
                            Ok(more) => {
                                assert(so_far + (seq![value@] + more) =~= so_far.push(value@)
                                    + more);
                            },
                            Err(_) => {},
                        }
                    }
                    values.push(value);
                    assert(values.deep_view() =~= so_far.push(value@));
                    taken += 1;
                } else {
                    assert(left.len() == 0);
                    match &param.default {
                        Some(default) => {
                            let value = default.clone();
                            proof {
                                match bind_each(rest.drop_first(), left, pairs) {
                                    Ok(more) => {
                                        assert(so_far + (seq![value@] + more) =~= so_far.push(
                                            value@,
                                        ) + more);
                                    },
                                    Err(_) => {},
                                }
                            }
                            values.push(value);
                            assert(values.deep_view() =~= so_far.push(value@));
                        },
                        None => {
                            assert(bind_each(rest, left, pairs) == Err::<
                                Seq<Seq<char>>,
                                TaskErrorView,
                            >(TaskErrorView::ArgumentMissing(param.name@)));
                            return Err(TaskError::ArgumentMissing(param.name.clone()));
                        },
                    }
                }
            },
        }
        i += 1;
    }
    proof {
        assert(all.skip(i as int).len() == 0);
    }
    if taken < positional.len() {
        assert(given.skip(taken as int)[0] == positional[taken as int]@);
        return Err(TaskError::UnexpectedPositional(positional[taken].clone()));
    }
    assert(given.skip(taken as int).len() == 0);
    if named_map_len(&unused) > 0 {
        return Err(TaskError::UnknownArguments(names_in(&unused)));
    }
    assert(values.deep_view() + Seq::<Seq<char>>::empty() =~= values.deep_view());
    Ok(values)
}

/// What binding arguments for the task registered under `task_name` yields:
/// the values the task is called with, or the error. Binding for a task
/// that the registry lacks is an error of its own.
pub open spec fn prepared_arguments(
    task: Option<crate::task::model::TaskView>,
    task_name: Seq<char>,
    positional: Seq<Seq<char>>,
    named: Seq<(Seq<char>, Seq<char>)>,
) -> Result<Seq<Seq<char>>, TaskErrorView> {
    match task {
        None => Err(TaskErrorView::TaskNotRegistered(task_name)),
        Some(task) => bind_arguments(task_name, task.params, positional, named),
    }
}

/// What binding the command-line tokens `tokens` for the task registered
/// under `task_name` yields: a token that cannot be read fails first.
pub open spec fn prepared_from_tokens(
    task: Option<crate::task::model::TaskView>,
    task_name: Seq<char>,
    tokens: Seq<Seq<char>>,
) -> Result<Seq<Seq<char>>, TaskErrorView> {
    match parse_tokens(tokens) {
        Err(error) => Err(error),
        Ok(parsed) => prepared_arguments(task, task_name, parsed.positional, parsed.named),
    }
}

/// Binds the command-line tokens `raw_args` to the parameters of the task
/// registered under `task_name`: see `prepared_from_tokens`.
pub fn prepare_arguments_from_cli(
    registry: &TaskRegistry,
    task_name: &str,
    raw_args: &[String],
) -> (result: Result<Vec<String>, TaskError>)
    ensures
        match result {
            Ok(values) => prepared_from_tokens(
                registry@.task(task_name@),
                task_name@,
                raw_args.deep_view(),
            ) == Ok::<Seq<Seq<char>>, TaskErrorView>(values.deep_view()),
            Err(error) => prepared_from_tokens(
                registry@.task(task_name@),
                task_name@,
                raw_args.deep_view(),
            ) == Err::<Seq<Seq<char>>, TaskErrorView>(error@),
        },
{
    match parse_cli_arguments(raw_args) {
        Ok((positional, named)) => prepare_arguments_from_parts(
            registry,
            task_name,
            positional,
            named,
        ),
        Err(error) => Err(error),
    }
}

/// Binds `positional` and `named` values to the parameters of the task
/// registered under `task_name`: see `prepared_arguments`.
pub fn prepare_arguments_from_parts(
    registry: &TaskRegistry,
    task_name: &str,
    positional: Vec<String>,
    named: IndexMap<String, String>,
) -> (result: Result<Vec<String>, TaskError>)
    ensures
        match result {
            Ok(values) => prepared_arguments(
                registry@.task(task_name@),
                task_name@,
                positional.deep_view(),
                named_values(named),
            ) == Ok::<Seq<Seq<char>>, TaskErrorView>(values.deep_view()),
            Err(error) => prepared_arguments(
                registry@.task(task_name@),
                task_name@,
                positional.deep_view(),
                named_values(named),
            ) == Err::<Seq<Seq<char>>, TaskErrorView>(error@),
        },
{
    prepare_arguments_internal(registry, task_name, positional, named)
}

fn prepare_arguments_internal(
    registry: &TaskRegistry,
    task_name: &str,
    positional: Vec<String>,
    named: IndexMap<String, String>,
) -> (result: Result<Vec<String>, TaskError>)
    ensures
        match result {
            Ok(values) => prepared_arguments(
                registry@.task(task_name@),
                task_name@,
                positional.deep_view(),
                named_values(named),
            ) == Ok::<Seq<Seq<char>>, TaskErrorView>(values.deep_view()),
            Err(error) => prepared_arguments(
                registry@.task(task_name@),
                task_name@,
                positional.deep_view(),
                named_values(named),
            ) == Err::<Seq<Seq<char>>, TaskErrorView>(error@),
        },
{
    let task = match registry.task(task_name) {
        Some(task) => task,
        None => {
            return Err(TaskError::TaskNotRegistered(task_name.to_owned()));
        },
    };
    if task.params.len() == 0 {
        if positional.len() == 0 && named_map_len(&named) == 0 {
            let values: Vec<String> = Vec::new();
            assert(values.deep_view() =~= Seq::<Seq<char>>::empty());
            return Ok(values);
        } else {
            return Err(TaskError::ArgumentsNotAccepted(task_name.to_owned()));
        }
    }
    bind_parameters(&task.params, positional, named)
}

} // verus!
