//! The execution scope manager and the decisions that start a task.
//!
//! The library keeps the stack of running actions and decides which
//! directory each of them runs in; the host reads and changes the working
//! directory of the process and calls the action.

use vstd::prelude::*;
use crate::error::{TaskError, TaskErrorView};
use crate::text::same_text;

verus! {

/// One running action: the directory that its task asked for, if any.
#[derive(Debug)]
pub struct ActionContext {
    working_dir: Option<String>,
}

impl ActionContext {
    /// The context of an action that runs in `working_dir`.
    pub fn new(working_dir: Option<String>) -> (context: Self)
        ensures
            context@ == working_dir.deep_view(),
    {
        ActionContext { working_dir }
    }
}

impl View for ActionContext {
    type V = Option<Seq<char>>;

    closed spec fn view(&self) -> Option<Seq<char>> {
        self.working_dir.deep_view()
    }
}

impl DeepView for ActionContext {
    type V = Option<Seq<char>>;

    closed spec fn deep_view(&self) -> Option<Seq<char>> {
        self.working_dir.deep_view()
    }
}

/// The actions that are running, outermost first, and the directory that
/// the process was started in.
#[derive(Debug)]
pub struct ExecutionState {
    contexts: Vec<ActionContext>,
    base_dir: String,
}

/// What an `ExecutionState` holds, as plain text.
pub struct ExecutionStateView {
    /// The directory that each running action asked for, outermost first.
    pub contexts: Seq<Option<Seq<char>>>,
    /// The directory that the process was started in.
    pub base_dir: Seq<char>,
}

impl ExecutionStateView {
    /// Whether an action is running.
    pub open spec fn is_active(self) -> bool {
        self.contexts.len() > 0
    }

    /// The directory that the innermost running action asked for.
    pub open spec fn current_dir(self) -> Option<Seq<char>> {
        if self.contexts.len() > 0 {
            self.contexts.last()
        } else {
            None
        }
    }

    /// The directory that an action runs in when its task asks for
    /// `working_dir`: that directory, or the base directory when the task
    /// asks for none.
    pub open spec fn target_dir(self, working_dir: Option<Seq<char>>) -> Seq<char> {
        match working_dir {
            Some(dir) => dir,
            None => self.base_dir,
        }
    }

    /// The directory that the host must change to when an action whose task
    /// asks for `working_dir` starts while the process is in `current_dir`:
    /// none when it is there already.
    pub open spec fn change_for(self, working_dir: Option<Seq<char>>, current_dir: Seq<char>) -> Option<
        Seq<char>,
    > {
        if self.target_dir(working_dir) == current_dir {
            None
        } else {
            Some(self.target_dir(working_dir))
        }
    }

    /// The state with one more running action.
    pub open spec fn pushed(self, working_dir: Option<Seq<char>>) -> ExecutionStateView {
        ExecutionStateView { contexts: self.contexts.push(working_dir), ..self }
    }

    /// The state without its innermost running action; the same state when
    /// none is running.
    pub open spec fn popped(self) -> ExecutionStateView {
        if self.contexts.len() > 0 {
            ExecutionStateView { contexts: self.contexts.drop_last(), ..self }
        } else {
            self
        }
    }
}

impl View for ExecutionState {
    type V = ExecutionStateView;

    closed spec fn view(&self) -> ExecutionStateView {
        ExecutionStateView { contexts: self.contexts.deep_view(), base_dir: self.base_dir@ }
    }
}

/// What the host must do to the working directory of the process when an
/// action starts.
#[derive(Debug)]
pub struct DirectoryChange {
    /// The directory to change to; `None` when the process is there
    /// already.
    pub change_to: Option<String>,
    /// The directory that the process was in, to return to when the action
    /// ends.
    pub previous_dir: String,
}

impl ExecutionState {
    /// The state of a process started in `base_dir`, with no action
    /// running.
    pub fn new(base_dir: String) -> (state: Self)
        ensures
            state@ == (ExecutionStateView { contexts: Seq::empty(), base_dir: base_dir@ }),
    {
        let state = ExecutionState { contexts: Vec::new(), base_dir };
        assert(state.contexts.deep_view() =~= Seq::empty());
        state
    }

    /// Records that an action started whose task asked for `working_dir`.
    pub fn push(&mut self, working_dir: Option<String>)
        ensures
            final(self)@ == old(self)@.pushed(working_dir.deep_view()),
    {
        let context = ActionContext::new(working_dir);
        self.contexts.push(context);
        assert(self.contexts.deep_view() =~= old(self).contexts.deep_view().push(context@));
    }

    /// Records that the innermost running action ended.
    pub fn pop(&mut self)
        ensures
            final(self)@ == old(self)@.popped(),
    {
        let ghost before = self.contexts.deep_view();
        self.contexts.pop();
        proof {
            if before.len() > 0 {
                assert(self.contexts.deep_view() =~= before.drop_last());
            } else {
                assert(self.contexts.deep_view() =~= before);
            }
        }
    }

    /// What the host must do to the working directory when an action starts
    /// whose task asked for `working_dir`, the process being in
    /// `current_dir`.
    pub fn enter_directory(&self, working_dir: Option<&String>, current_dir: &str) -> (change:
        DirectoryChange)
        ensures
            change.change_to.deep_view() == self@.change_for(working_dir.deep_view(), current_dir@),
            change.previous_dir@ == current_dir@,
    {
        let target: &String = match working_dir {
            Some(dir) => dir,
            None => &self.base_dir,
        };
        let change_to = if same_text(target.as_str(), current_dir) {
            None
        } else {
            Some(target.clone())
        };
        DirectoryChange { change_to, previous_dir: current_dir.to_owned() }
    }

    /// Whether an action is running.
    pub fn is_active(&self) -> (active: bool)
        ensures
            active == self@.is_active(),
    {
        self.contexts.len() > 0
    }

    /// The directory that the innermost running action asked for.
    pub fn current_dir(&self) -> (dir: Option<String>)
        ensures
            dir.deep_view() == self@.current_dir(),
    {
        if self.contexts.len() > 0 {
            self.contexts[self.contexts.len() - 1].working_dir.clone()
        } else {
            None
        }
    }
}

/// A running action's hold on the working directory: the directory to
/// return to when the action ends.
#[derive(Debug)]
pub struct ActionScope {
    previous_dir: Option<String>,
}

impl View for ActionScope {
    type V = Option<Seq<char>>;

    closed spec fn view(&self) -> Option<Seq<char>> {
        self.previous_dir.deep_view()
    }
}

/// A scope that was started, with what the host must do before it calls the
/// action.
#[derive(Debug)]
pub struct ScopeEntry {
    /// The scope; to be finished when the action ends, however it ends.
    pub scope: ActionScope,
    /// The directory to change to; `None` when the process is there
    /// already.
    pub change_to: Option<String>,
}

/// What starting a nested scope under `label` does: it is refused while no
/// action is running; otherwise the state gets one more running action.
pub open spec fn nested_scope_started(
    state: ExecutionStateView,
    label: Seq<char>,
    working_dir: Option<Seq<char>>,
) -> Result<ExecutionStateView, TaskErrorView> {
    if state.is_active() {
        Ok(state.pushed(working_dir))
    } else {
        Err(TaskErrorView::OutsideActions(label))
    }
}

/// The working directory of the process after the host did what a scope
/// asked for: the directory to change to, or the one it was in.
pub open spec fn directory_after(current_dir: Seq<char>, change_to: Option<Seq<char>>) -> Seq<
    char,
> {
    match change_to {
        Some(dir) => dir,
        None => current_dir,
    }
}

/// A scope that is started and then finished leaves the state as it was and
/// sends the process back to the directory it was in; in between, the
/// process is in the directory that the task asked for, or in the base
/// directory when it asked for none.
pub proof fn lemma_scope_restores(
    state: ExecutionStateView,
    working_dir: Option<Seq<char>>,
    current_dir: Seq<char>,
)
    ensures
        state.pushed(working_dir).is_active(),
        state.pushed(working_dir).popped() == state,
        directory_after(current_dir, state.change_for(working_dir, current_dir))
            == state.target_dir(working_dir),
        directory_after(state.target_dir(working_dir), Some(current_dir)) == current_dir,
{
    assert(state.contexts.push(working_dir).drop_last() =~= state.contexts);
}

/// Scopes end in the reverse order of their start, and each sends the
/// process back to where it was when that scope started: after an inner
/// scope ends the process is in the directory of the outer one, and after
/// the outer one ends it is where it was before either started.
pub proof fn lemma_nested_scopes_restore(
    state: ExecutionStateView,
    outer_dir: Option<Seq<char>>,
    inner_dir: Option<Seq<char>>,
    launch_dir: Seq<char>,
)
    ensures
        ({
            let outer = state.pushed(outer_dir);
            let in_outer = directory_after(launch_dir, state.change_for(outer_dir, launch_dir));
            let inner = outer.pushed(inner_dir);
            let in_inner = directory_after(in_outer, outer.change_for(inner_dir, in_outer));
            let after_inner = directory_after(in_inner, Some(in_outer));
            let after_outer = directory_after(after_inner, Some(launch_dir));
            &&& in_outer == state.target_dir(outer_dir)
            &&& in_inner == state.target_dir(inner_dir)
            &&& inner.popped() == outer
            &&& after_inner == in_outer
            &&& outer.popped() == state
            &&& after_outer == launch_dir
        }),
{
    let outer = state.pushed(outer_dir);
    assert(outer.contexts.push(inner_dir).drop_last() =~= outer.contexts);
    assert(state.contexts.push(outer_dir).drop_last() =~= state.contexts);
}

impl ActionScope {
    /// Starts the scope of an action whose task asked for `working_dir`,
    /// the process being in `current_dir`. The action is recorded as
    /// running whether or not the directory has to change.
    pub fn start(state: &mut ExecutionState, working_dir: Option<String>, current_dir: String) -> (entry:
        ScopeEntry)
        ensures
            final(state)@ == old(state)@.pushed(working_dir.deep_view()),
            entry.scope@ == Some(current_dir@),
            entry.change_to.deep_view() == old(state)@.change_for(
                working_dir.deep_view(),
                current_dir@,
            ),
    {
        let change = state.enter_directory(working_dir.as_ref(), current_dir.as_str());
        state.push(working_dir);
        ScopeEntry {
            scope: ActionScope { previous_dir: Some(change.previous_dir) },
            change_to: change.change_to,
        }
    }

    /// Starts the scope of an action that another action set off under
    /// `label`: see `nested_scope_started`. While no action is running the
    /// call is refused, the state stays as it is and no directory is to be
    /// changed.
    pub fn start_nested(
        state: &mut ExecutionState,
        label: &str,
        working_dir: Option<String>,
        current_dir: String,
    ) -> (result: Result<ScopeEntry, TaskError>)
        ensures
            match result {
                Ok(entry) => nested_scope_started(old(state)@, label@, working_dir.deep_view())
                    == Ok::<ExecutionStateView, TaskErrorView>(final(state)@) && entry.scope@
                    == Some(current_dir@) && entry.change_to.deep_view() == old(state)@.change_for(
                    working_dir.deep_view(),
                    current_dir@,
                ),
                Err(error) => nested_scope_started(old(state)@, label@, working_dir.deep_view())
                    == Err::<ExecutionStateView, TaskErrorView>(error@) && final(state)@ == old(
                    state,
                )@,
            },
    {
        if !state.is_active() {
            return Err(actions_only_error(label));
        }
        Ok(ActionScope::start(state, working_dir, current_dir))
    }

    /// Ends the scope: the innermost running action is taken off the state.
    /// Returns the directory that the host must change back to.
    pub fn finish(self, state: &mut ExecutionState) -> (restore: Option<String>)
        ensures
            final(state)@ == old(state)@.popped(),
            restore.deep_view() == self@,
    {
        state.pop();
        self.previous_dir
    }
}

/// The error for a primitive `label` that was used while no action was
/// running.
pub fn actions_only_error(label: &str) -> (error: TaskError)
    ensures
        error@ == TaskErrorView::OutsideActions(label@),
{
    TaskError::OutsideActions(label.to_owned())
}

/// Checks that an action is running, for the primitive `label` that may
/// only be used inside one.
pub fn ensure_actions_scope(state: &ExecutionState, label: &str) -> (result: Result<(), TaskError>)
    ensures
        match result {
            Ok(()) => state@.is_active(),
            Err(error) => !state@.is_active() && error@ == TaskErrorView::OutsideActions(label@),
        },
{
    if !state.is_active() {
        return Err(actions_only_error(label));
    }
    Ok(())
}

} // verus!
