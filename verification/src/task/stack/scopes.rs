//! What a whole sequence of scope calls builds.
//!
//! The transitions of the build stack are stated one call at a time. This
//! module follows a sequence of `task()` and `group()` scopes from the empty
//! registry and proves what the registry holds in the end: one task for
//! every task scope that was closed and one group for every group scope that
//! was closed, each under the names of its enclosing scopes and its own,
//! joined by dots.

use vstd::prelude::*;
use crate::error::joined;
use crate::ordered_map::{names_of, with_value};
use crate::task::registry::RegistryView;
use crate::task::stack::build_stack::{
    child_path, group_closed, group_is_open, group_path_conflict, group_to_open,
    task_closed, task_is_open, task_path_conflict, task_to_open, FrameView,
};
use crate::text::{lemma_first_index_of, trimmed};

verus! {

/// One call that opens or closes a scope.
pub enum ScopeCall {
    BeginTask(Seq<char>),
    EndTask,
    BeginGroup(Seq<char>),
    EndGroup,
}

/// The open scopes and the registry between two calls.
pub struct BuildState {
    pub frames: Seq<FrameView>,
    pub registry: RegistryView,
}

/// A scope as the calls alone describe it: its kind, and the trimmed names
/// of the scopes that enclose it, outermost first, with its own name last.
pub struct Scope {
    pub is_task: bool,
    pub names: Seq<Seq<char>>,
}

impl Scope {
    /// The names of the enclosing scopes and of this one, joined by dots.
    pub open spec fn path(self) -> Seq<char> {
        joined(self.names, seq!['.'])
    }
}

/// Where every sequence of calls starts: only the root is open and the
/// registry is empty.
pub open spec fn initial_state() -> BuildState {
    BuildState { frames: seq![FrameView::Root], registry: RegistryView::empty() }
}

/// The state after `call`, or `None` where the call fails.
pub open spec fn after_call(state: BuildState, call: ScopeCall) -> Option<BuildState> {
    match call {
        ScopeCall::BeginTask(name) => match task_to_open(state.frames, state.registry, name) {
            Ok(frame) => Some(BuildState { frames: state.frames.push(frame), ..state }),
            Err(_) => None,
        },
        ScopeCall::BeginGroup(name) => match group_to_open(state.frames, state.registry, name) {
            Ok(frame) => Some(BuildState { frames: state.frames.push(frame), ..state }),
            Err(_) => None,
        },
        ScopeCall::EndTask => match task_closed(state.frames, state.registry) {
            Ok((frames, registry)) => Some(BuildState { frames, registry }),
            Err(_) => None,
        },
        ScopeCall::EndGroup => match group_closed(state.frames, state.registry) {
            Ok((frames, registry)) => Some(BuildState { frames, registry }),
            Err(_) => None,
        },
    }
}

/// The state after all of `calls`, made in order from the initial state, or
/// `None` where one of them fails.
pub open spec fn after_calls(calls: Seq<ScopeCall>) -> Option<BuildState>
    decreases calls.len(),
{
    if calls.len() == 0 {
        Some(initial_state())
    } else {
        match after_calls(calls.drop_last()) {
            Some(state) => after_call(state, calls.last()),
            None => None,
        }
    }
}

/// The scope that a call with name `name` opens inside `open`.
pub open spec fn scope_opened(open: Seq<Scope>, is_task: bool, name: Seq<char>) -> Scope {
    Scope {
        is_task,
        names: if open.len() == 0 {
            seq![trimmed(name)]
        } else {
            open.last().names.push(trimmed(name))
        },
    }
}

/// The scopes that are open after `calls`, outermost first.
pub open spec fn open_scopes(calls: Seq<ScopeCall>) -> Seq<Scope>
    decreases calls.len(),
{
    if calls.len() == 0 {
        Seq::empty()
    } else {
        let open = open_scopes(calls.drop_last());
        match calls.last() {
            ScopeCall::BeginTask(name) => open.push(scope_opened(open, true, name)),
            ScopeCall::BeginGroup(name) => open.push(scope_opened(open, false, name)),
            _ => if open.len() > 0 {
                open.drop_last()
            } else {
                open
            },
        }
    }
}

/// The full paths of all scopes that `calls` open, in the order of opening.
pub open spec fn opened_paths(calls: Seq<ScopeCall>) -> Seq<Seq<char>>
    decreases calls.len(),
{
    if calls.len() == 0 {
        Seq::empty()
    } else {
        let open = open_scopes(calls.drop_last());
        let paths = opened_paths(calls.drop_last());
        match calls.last() {
            ScopeCall::BeginTask(name) => paths.push(scope_opened(open, true, name).path()),
            ScopeCall::BeginGroup(name) => paths.push(scope_opened(open, false, name).path()),
            _ => paths,
        }
    }
}

/// The full paths of the task scopes (`tasks`) or group scopes (`!tasks`)
/// that `calls` close, in the order of closing.
pub open spec fn closed_paths(calls: Seq<ScopeCall>, tasks: bool) -> Seq<Seq<char>>
    decreases calls.len(),
{
    if calls.len() == 0 {
        Seq::empty()
    } else {
        let open = open_scopes(calls.drop_last());
        let paths = closed_paths(calls.drop_last(), tasks);
        match calls.last() {
            ScopeCall::EndTask => if tasks && open.len() > 0 {
                paths.push(open.last().path())
            } else {
                paths
            },
            ScopeCall::EndGroup => if !tasks && open.len() > 0 {
                paths.push(open.last().path())
            } else {
                paths
            },
            _ => paths,
        }
    }
}

/// Whether `calls` nest properly: every name is non-blank, nothing is opened
/// inside a task, and every closing call closes a scope of its own kind.
pub open spec fn well_nested(calls: Seq<ScopeCall>) -> bool
    decreases calls.len(),
{
    calls.len() == 0 || (well_nested(calls.drop_last()) && {
        let open = open_scopes(calls.drop_last());
        match calls.last() {
            ScopeCall::BeginTask(name) => trimmed(name).len() > 0 && (open.len() == 0
                || !open.last().is_task),
            ScopeCall::BeginGroup(name) => trimmed(name).len() > 0 && (open.len() == 0
                || !open.last().is_task),
            ScopeCall::EndTask => open.len() > 0 && open.last().is_task,
            ScopeCall::EndGroup => open.len() > 0 && !open.last().is_task,
        }
    })
}

/// Whether `calls` nest properly and leave no scope open.
pub open spec fn balanced(calls: Seq<ScopeCall>) -> bool {
    well_nested(calls) && open_scopes(calls).len() == 0
}

/// Whether no two scopes that `calls` open have the same full path.
pub open spec fn uniquely_named(calls: Seq<ScopeCall>) -> bool {
    opened_paths(calls).no_duplicates()
}

/// Whether `frame` is the open scope `scope`.
pub open spec fn frame_is(frame: FrameView, scope: Scope) -> bool {
    match frame {
        FrameView::Root => false,
        FrameView::Group { full_path, .. } => !scope.is_task && full_path == scope.path(),
        FrameView::Task { full_path, .. } => scope.is_task && full_path == scope.path(),
    }
}

/// What holds between a state and the calls that led to it.
pub open spec fn tracks(state: BuildState, calls: Seq<ScopeCall>) -> bool {
    let open = open_scopes(calls);
    let tasks = closed_paths(calls, true);
    let groups = closed_paths(calls, false);
    let opened = opened_paths(calls);
    &&& state.frames.len() == open.len() + 1
    &&& state.frames[0] is Root
    &&& forall|i: int| 0 <= i < open.len() ==> frame_is(#[trigger] state.frames[i + 1], open[i])
    &&& forall|i: int| 0 <= i < open.len() ==> (#[trigger] open[i]).names.len() > 0
    &&& state.registry.task_paths() == tasks
    &&& state.registry.group_paths() == groups
    &&& forall|i: int| 0 <= i < open.len() ==> opened.contains((#[trigger] open[i]).path())
    &&& forall|path: Seq<char>| #[trigger] tasks.contains(path) ==> opened.contains(path)
    &&& forall|path: Seq<char>| #[trigger] groups.contains(path) ==> opened.contains(path)
    &&& forall|i: int, j: int|
        0 <= i < j < open.len() ==> (#[trigger] open[i]).path() != (#[trigger] open[j]).path()
    &&& tasks.no_duplicates()
    &&& groups.no_duplicates()
    &&& forall|i: int| 0 <= i < open.len() ==> !tasks.contains((#[trigger] open[i]).path())
    &&& forall|i: int| 0 <= i < open.len() ==> !groups.contains((#[trigger] open[i]).path())
    &&& forall|path: Seq<char>| !(#[trigger] tasks.contains(path) && groups.contains(path))
}

/// The full path of a scope is the path that the build stack gives a scope
/// of that name inside the innermost open one.
proof fn lemma_scope_path(frames: Seq<FrameView>, open: Seq<Scope>, is_task: bool, name: Seq<char>)
    requires
        frames.len() == open.len() + 1,
        frames[0] is Root,
        forall|i: int| 0 <= i < open.len() ==> frame_is(#[trigger] frames[i + 1], open[i]),
        forall|i: int| 0 <= i < open.len() ==> (#[trigger] open[i]).names.len() > 0,
        open.len() == 0 || !open.last().is_task,
    ensures
        child_path(frames.last(), trimmed(name)) == Ok::<Seq<char>, crate::error::TaskErrorView>(
            scope_opened(open, is_task, name).path(),
        ),
{
    let scope = scope_opened(open, is_task, name);
    if open.len() == 0 {
        assert(frames.last() == frames[0]);
        assert(scope.names.len() == 1);
    } else {
        let parent = open.last();
        assert(parent == open[open.len() - 1]);
        assert(frame_is(frames[open.len() - 1 + 1], open[open.len() - 1]));
        assert(frames.last() == frames[open.len() as int]);
        assert(scope.names.drop_last() =~= parent.names);
        assert(scope.names.last() == trimmed(name));
    }
}

/// A path that no scope was opened with is in no one's way.
proof fn lemma_fresh_path(state: BuildState, calls: Seq<ScopeCall>, path: Seq<char>)
    requires
        tracks(state, calls),
        !opened_paths(calls).contains(path),
    ensures
        task_path_conflict(state.frames, state.registry, path) is None,
        group_path_conflict(state.frames, state.registry, path) is None,
{
    let open = open_scopes(calls);
    if task_is_open(state.frames, path) {
        let i = choose|i: int|
            0 <= i < state.frames.len() && (#[trigger] state.frames[i] matches FrameView::Task {
                full_path,
                ..
            } && full_path == path);
        assert(frame_is(state.frames[i - 1 + 1], open[i - 1]));
        assert(opened_paths(calls).contains(open[i - 1].path()));
    }
    if group_is_open(state.frames, path) {
        let i = choose|i: int|
            0 <= i < state.frames.len() && (#[trigger] state.frames[i] matches FrameView::Group {
                full_path,
                ..
            } && full_path == path);
        assert(frame_is(state.frames[i - 1 + 1], open[i - 1]));
        assert(opened_paths(calls).contains(open[i - 1].path()));
    }
}

/// Storing a value under a name that is not there yet appends the name.
pub proof fn lemma_new_name<V>(pairs: Seq<(Seq<char>, V)>, name: Seq<char>, value: V)
    requires
        !names_of(pairs).contains(name),
    ensures
        names_of(with_value(pairs, name, value)) == names_of(pairs).push(name),
{
    lemma_first_index_of(names_of(pairs), name);
    assert(names_of(with_value(pairs, name, value)) =~= names_of(pairs).push(name));
}

/// Opening a scope keeps the state on track.
proof fn lemma_begin(state: BuildState, calls: Seq<ScopeCall>, call: ScopeCall)
    requires
        tracks(state, calls),
        call is BeginTask || call is BeginGroup,
        well_nested(calls.push(call)),
        uniquely_named(calls.push(call)),
    ensures
        after_call(state, call) matches Some(next) && tracks(next, calls.push(call)),
{
    let all = calls.push(call);
    assert(all.drop_last() =~= calls);
    assert(all.last() == call);
    let open = open_scopes(calls);
    let (is_task, name) = match call {
        ScopeCall::BeginTask(name) => (true, name),
        ScopeCall::BeginGroup(name) => (false, name),
        _ => (true, Seq::empty()),
    };
    let scope = scope_opened(open, is_task, name);
    let path = scope.path();
    let opened = opened_paths(calls);
    assert(opened_paths(all) == opened.push(path));
    assert(!opened.contains(path)) by {
        if opened.contains(path) {
            let k = choose|k: int| 0 <= k < opened.len() && opened[k] == path;
            assert(opened_paths(all)[k] == path);
            assert(opened_paths(all)[opened.len() as int] == path);
        }
    }
    lemma_scope_path(state.frames, open, is_task, name);
    lemma_fresh_path(state, calls, path);
    let next = after_call(state, call)->0;
    let open_next = open_scopes(all);
    assert(open_next == open.push(scope));
    assert forall|i: int| 0 <= i < open_next.len() implies frame_is(
        #[trigger] next.frames[i + 1],
        open_next[i],
    ) by {
        if i < open.len() {
            assert(frame_is(state.frames[i + 1], open[i]));
        }
    }
    assert forall|i: int| 0 <= i < open_next.len() implies opened_paths(all).contains(
        (#[trigger] open_next[i]).path(),
    ) by {
        if i < open.len() {
            let k = choose|k: int| 0 <= k < opened.len() && opened[k] == open[i].path();
            assert(opened_paths(all)[k] == open[i].path());
        } else {
            assert(opened_paths(all)[opened.len() as int] == path);
        }
    }
    assert forall|known: Seq<char>| #[trigger]
        closed_paths(all, true).contains(known) implies opened_paths(all).contains(known) by {
        let k = choose|k: int| 0 <= k < opened.len() && opened[k] == known;
        assert(opened_paths(all)[k] == known);
    }
    assert forall|known: Seq<char>| #[trigger]
        closed_paths(all, false).contains(known) implies opened_paths(all).contains(known) by {
        let k = choose|k: int| 0 <= k < opened.len() && opened[k] == known;
        assert(opened_paths(all)[k] == known);
    }
    assert forall|i: int, j: int| 0 <= i < j < open_next.len() implies (#[trigger] open_next[i]).path()
        != (#[trigger] open_next[j]).path() by {
        if j == open.len() {
            assert(opened.contains(open[i].path()));
        }
    }
    assert forall|i: int| 0 <= i < open_next.len() implies !closed_paths(all, true).contains(
        (#[trigger] open_next[i]).path(),
    ) by {
        if i == open.len() {
            if closed_paths(calls, true).contains(path) {
                assert(opened.contains(path));
            }
        }
    }
    assert forall|i: int| 0 <= i < open_next.len() implies !closed_paths(all, false).contains(
        (#[trigger] open_next[i]).path(),
    ) by {
        if i == open.len() {
            if closed_paths(calls, false).contains(path) {
                assert(opened.contains(path));
            }
        }
    }
}

/// Closing the innermost scope, which is of the kind that the call closes,
/// keeps the state on track.
proof fn lemma_end(state: BuildState, calls: Seq<ScopeCall>, call: ScopeCall)
    requires
        tracks(state, calls),
        call is EndTask || call is EndGroup,
        well_nested(calls.push(call)),
    ensures
        after_call(state, call) matches Some(next) && tracks(next, calls.push(call)),
{
    let all = calls.push(call);
    assert(all.drop_last() =~= calls);
    assert(all.last() == call);
    let open = open_scopes(calls);
    let scope = open.last();
    let path = scope.path();
    assert(scope == open[open.len() - 1]);
    assert(frame_is(state.frames[open.len() - 1 + 1], open[open.len() - 1]));
    assert(state.frames.last() == state.frames[open.len() as int]);
    let next = after_call(state, call)->0;
    let below = state.frames.drop_last();
    let open_next = open_scopes(all);
    assert(open_next == open.drop_last());
    assert(opened_paths(all) == opened_paths(calls));
    let tasks = closed_paths(calls, true);
    let groups = closed_paths(calls, false);
    assert(!tasks.contains(path));
    assert(!groups.contains(path));
    match state.frames.last() {
        FrameView::Task { full_path, task } => {
            lemma_new_name(state.registry.tasks, full_path, task);
            assert(next.registry.group_paths() == groups);
            assert(closed_paths(all, true) == tasks.push(path));
            assert(closed_paths(all, false) == groups);
        },
        FrameView::Group { full_path, group } => {
            lemma_new_name(state.registry.groups, full_path, group);
            assert(next.registry.task_paths() == tasks);
            assert(closed_paths(all, false) == groups.push(path));
            assert(closed_paths(all, true) == tasks);
        },
        FrameView::Root => {},
    }
    assert(next.frames.len() == below.len());
    assert forall|i: int| 0 <= i < open_next.len() implies frame_is(
        #[trigger] next.frames[i + 1],
        open_next[i],
    ) by {
        assert(frame_is(state.frames[i + 1], open[i]));
        assert(open_next[i] == open[i]);
        if i + 1 < below.len() - 1 {
            assert(next.frames[i + 1] == below[i + 1]);
        }
    }
    assert(next.frames[0] is Root) by {
        if below.len() > 1 {
            assert(next.frames[0] == below[0]);
        }
    }
    assert forall|i: int| 0 <= i < open_next.len() implies (#[trigger] open_next[i]).names.len()
        > 0 by {
        assert(open_next[i] == open[i]);
    }
    assert forall|i: int| 0 <= i < open_next.len() implies opened_paths(all).contains(
        (#[trigger] open_next[i]).path(),
    ) by {
        assert(open_next[i] == open[i]);
    }
    let tasks_next = closed_paths(all, true);
    let groups_next = closed_paths(all, false);
    assert forall|known: Seq<char>| #[trigger] tasks_next.contains(known) implies opened_paths(
        all,
    ).contains(known) by {
        let k = choose|k: int| 0 <= k < tasks_next.len() && tasks_next[k] == known;
        if k < tasks.len() {
            assert(tasks[k] == known);
            assert(tasks.contains(known));
        } else {
            assert(known == path);
            assert(opened_paths(calls).contains(open[open.len() - 1].path()));
        }
    }
    assert forall|known: Seq<char>| #[trigger] groups_next.contains(known) implies opened_paths(
        all,
    ).contains(known) by {
        let k = choose|k: int| 0 <= k < groups_next.len() && groups_next[k] == known;
        if k < groups.len() {
            assert(groups[k] == known);
            assert(groups.contains(known));
        } else {
            assert(known == path);
            assert(opened_paths(calls).contains(open[open.len() - 1].path()));
        }
    }
    assert forall|i: int, j: int| 0 <= i < j < open_next.len() implies (#[trigger] open_next[i]).path()
        != (#[trigger] open_next[j]).path() by {
        assert(open_next[i] == open[i] && open_next[j] == open[j]);
    }
    assert(tasks_next.no_duplicates()) by {
        assert forall|i: int, j: int|
            0 <= i < tasks_next.len() && 0 <= j < tasks_next.len() && i != j implies tasks_next[i]
            != tasks_next[j] by {
            if i < tasks.len() && j < tasks.len() {
                assert(tasks[i] != tasks[j]);
            } else if i < tasks.len() {
                assert(tasks.contains(tasks[i]));
            } else if j < tasks.len() {
                assert(tasks.contains(tasks[j]));
            }
        }
    }
    assert(groups_next.no_duplicates()) by {
        assert forall|i: int, j: int|
            0 <= i < groups_next.len() && 0 <= j < groups_next.len() && i != j implies groups_next[i]
            != groups_next[j] by {
            if i < groups.len() && j < groups.len() {
                assert(groups[i] != groups[j]);
            } else if i < groups.len() {
                assert(groups.contains(groups[i]));
            } else if j < groups.len() {
                assert(groups.contains(groups[j]));
            }
        }
    }
    assert forall|i: int| 0 <= i < open_next.len() implies !tasks_next.contains(
        (#[trigger] open_next[i]).path(),
    ) by {
        assert(open_next[i] == open[i]);
        assert(open[i].path() != open[open.len() - 1].path());
        if tasks_next.contains(open[i].path()) {
            let k = choose|k: int| 0 <= k < tasks_next.len() && tasks_next[k] == open[i].path();
            if k < tasks.len() {
                assert(tasks[k] == open[i].path());
            }
        }
    }
    assert forall|i: int| 0 <= i < open_next.len() implies !groups_next.contains(
        (#[trigger] open_next[i]).path(),
    ) by {
        assert(open_next[i] == open[i]);
        assert(open[i].path() != open[open.len() - 1].path());
        if groups_next.contains(open[i].path()) {
            let k = choose|k: int| 0 <= k < groups_next.len() && groups_next[k] == open[i].path();
            if k < groups.len() {
                assert(groups[k] == open[i].path());
            }
        }
    }
    assert forall|known: Seq<char>| !(#[trigger] tasks_next.contains(known)
        && groups_next.contains(known)) by {
        if tasks_next.contains(known) && groups_next.contains(known) {
            let k = choose|k: int| 0 <= k < tasks_next.len() && tasks_next[k] == known;
            let m = choose|m: int| 0 <= m < groups_next.len() && groups_next[m] == known;
            if k < tasks.len() {
                assert(tasks[k] == known);
                assert(tasks.contains(known));
            } else {
                assert(known == path);
            }
            if m < groups.len() {
                assert(groups[m] == known);
                assert(groups.contains(known));
            } else {
                assert(known == path);
            }
        }
    }
}

/// Calls that nest properly and open no full path twice all succeed, and the
/// state they lead to is on track.
pub proof fn lemma_calls_stay_on_track(calls: Seq<ScopeCall>)
    requires
        well_nested(calls),
        uniquely_named(calls),
    ensures
        after_calls(calls) matches Some(state) && tracks(state, calls),
    decreases calls.len(),
{
    if calls.len() == 0 {
        let state = initial_state();
        assert(state.registry.task_paths() =~= closed_paths(calls, true));
        assert(state.registry.group_paths() =~= closed_paths(calls, false));
    } else {
        let before = calls.drop_last();
        let call = calls.last();
        assert(before.push(call) =~= calls);
        assert(uniquely_named(before)) by {
            let paths = opened_paths(before);
            let all = opened_paths(calls);
            assert forall|i: int, j: int|
                0 <= i < paths.len() && 0 <= j < paths.len() && i != j implies paths[i]
                != paths[j] by {
                assert(all[i] == paths[i] && all[j] == paths[j]);
            }
        }
        lemma_calls_stay_on_track(before);
        let state = after_calls(before)->0;
        if call is BeginTask || call is BeginGroup {
            lemma_begin(state, before, call);
        } else {
            lemma_end(state, before, call);
        }
    }
}

/// For scope calls that nest properly, leave nothing open and open no full
/// path twice: every call succeeds; in the end only the root is open; the
/// registry holds exactly one task for each task scope that was closed and
/// exactly one group for each group scope that was closed, each under the
/// dot-joined names of its enclosing scopes and its own, in the order of
/// closing; and no full path names both a task and a group.
pub proof fn lemma_registry_holds_closed_scopes(calls: Seq<ScopeCall>)
    requires
        balanced(calls),
        uniquely_named(calls),
    ensures
        after_calls(calls) matches Some(state) && {
            &&& state.frames == seq![FrameView::Root]
            &&& state.registry.task_paths() == closed_paths(calls, true)
            &&& state.registry.group_paths() == closed_paths(calls, false)
            &&& state.registry.task_paths().no_duplicates()
            &&& state.registry.group_paths().no_duplicates()
            &&& forall|path: Seq<char>|
                !(#[trigger] state.registry.contains_task(path) && state.registry.contains_group(
                    path,
                ))
        },
{
    lemma_calls_stay_on_track(calls);
    let state = after_calls(calls)->0;
    assert(state.frames =~= seq![FrameView::Root]);
}

/// Closing a task succeeds exactly when a task is the innermost open scope;
/// otherwise the call fails and says what was open instead.
pub proof fn lemma_end_task_needs_open_task(frames: Seq<FrameView>, registry: RegistryView)
    requires
        frames.len() > 0,
    ensures
        task_closed(frames, registry) is Ok <==> frames.last() is Task,
        frames.last() is Group ==> task_closed(frames, registry) == Err::<
            (Seq<FrameView>, RegistryView),
            crate::error::TaskErrorView,
        >(crate::error::TaskErrorView::EndTaskInsideGroup),
        frames.last() is Root ==> task_closed(frames, registry) == Err::<
            (Seq<FrameView>, RegistryView),
            crate::error::TaskErrorView,
        >(crate::error::TaskErrorView::EndTaskWithoutTask),
{
}

} // verus!
