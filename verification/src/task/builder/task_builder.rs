//! The task that an open `task()` scope is filling.

use vstd::prelude::*;
use rhai::FnPtr;
use crate::task::model::{ParameterSpec, Task, TaskView};

verus! {

/// A task under construction, with the full path it will be stored under.
#[derive(Debug)]
pub struct TaskBuilder {
    full_path: String,
    task: Task,
}

/// What a `TaskBuilder` holds, as plain text.
pub struct TaskBuilderView {
    pub full_path: Seq<char>,
    pub task: TaskView,
}

impl View for TaskBuilder {
    type V = TaskBuilderView;

    closed spec fn view(&self) -> TaskBuilderView {
        TaskBuilderView { full_path: self.full_path@, task: self.task@ }
    }
}

impl TaskBuilder {
    /// A builder for the task at `full_path`, with nothing set.
    pub fn new(full_path: String) -> (builder: Self)
        ensures
            builder@ == (TaskBuilderView { full_path: full_path@, task: TaskView::empty() }),
    {
        TaskBuilder { full_path, task: Task::default() }
    }

    /// The full path that the task will be stored under.
    pub fn full_path(&self) -> (path: &String)
        ensures
            path@ == self@.full_path,
    {
        &self.full_path
    }

    /// Sets the description, replacing an earlier one.
    pub fn set_description(&mut self, desc: &str)
        ensures
            final(self)@ == (TaskBuilderView {
                task: TaskView { description: Some(desc@), ..old(self)@.task },
                ..old(self)@
            }),
    {
        self.task.description = Some(desc.to_owned());
    }

    /// Whether a description was set.
    pub fn has_description(&self) -> (set: bool)
        ensures
            set == self@.task.description is Some,
    {
        self.task.description.is_some()
    }

    /// Sets the action, replacing an earlier one.
    pub fn set_actions(&mut self, func: FnPtr)
        ensures
            final(self)@ == (TaskBuilderView {
                task: TaskView { actions: Some(func), ..old(self)@.task },
                ..old(self)@
            }),
    {
        self.task.actions = Some(func);
    }

    /// Whether an action was set.
    pub fn has_actions(&self) -> (set: bool)
        ensures
            set == self@.task.actions is Some,
    {
        self.task.actions.is_some()
    }

    /// Sets the declared parameters, replacing earlier ones.
    pub fn set_params(&mut self, params: Vec<ParameterSpec>)
        ensures
            final(self)@ == (TaskBuilderView {
                task: TaskView { params: params.deep_view(), ..old(self)@.task },
                ..old(self)@
            }),
    {
        self.task.params = params;
    }

    /// Whether any parameter is declared.
    pub fn has_params(&self) -> (set: bool)
        ensures
            set == (self@.task.params.len() > 0),
    {
        self.task.params.len() > 0
    }

    /// Sets the working directory, replacing an earlier one.
    pub fn set_working_dir(&mut self, dir: String)
        ensures
            final(self)@ == (TaskBuilderView {
                task: TaskView { working_dir: Some(dir@), ..old(self)@.task },
                ..old(self)@
            }),
    {
        self.task.working_dir = Some(dir);
    }

    /// Whether a working directory was set.
    pub fn has_working_dir(&self) -> (set: bool)
        ensures
            set == self@.task.working_dir is Some,
    {
        self.task.working_dir.is_some()
    }

    /// The full path and the finished task.
    pub fn build(self) -> (built: (String, Task))
        ensures
            built.0@ == self@.full_path,
            built.1@ == self@.task,
    {
        (self.full_path, self.task)
    }
}

} // verus!
