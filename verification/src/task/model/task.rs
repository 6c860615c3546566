//! Tasks and their declared parameters.

use vstd::prelude::*;
use rhai::FnPtr;

verus! {

/// `rhai::FnPtr`: the interpreter's handle to a deferred action body. The
/// library stores it, clones it and hands it back; it never looks inside.
#[verifier::external_type_specification]
#[verifier::external_body]
pub struct ExFnPtr(FnPtr);

/// `<rhai::FnPtr as Clone>::clone`, which `rhai` derives: the copy stands
/// for the same action as the handle it was made from.
pub assume_specification[ <FnPtr as Clone>::clone ](handle: &FnPtr) -> (copy: FnPtr)
    ensures
        copy == *handle,
;

/// One declared parameter of a task.
#[derive(Debug)]
pub struct ParameterSpec {
    pub name: String,
    pub default: Option<String>,
}

/// What a `ParameterSpec` holds, as plain text.
pub struct ParameterSpecView {
    pub name: Seq<char>,
    pub default: Option<Seq<char>>,
}

impl View for ParameterSpec {
    type V = ParameterSpecView;

    open spec fn view(&self) -> ParameterSpecView {
        ParameterSpecView { name: self.name@, default: self.default.deep_view() }
    }
}

impl DeepView for ParameterSpec {
    type V = ParameterSpecView;

    open spec fn deep_view(&self) -> ParameterSpecView {
        self@
    }
}

impl Clone for ParameterSpec {
    fn clone(&self) -> (copy: Self)
        ensures
            copy@ == self@,
    {
        ParameterSpec { name: self.name.clone(), default: self.default.clone() }
    }
}

/// A named unit of work: what a finished `task()` scope leaves behind.
#[derive(Debug)]
pub struct Task {
    pub description: Option<String>,
    pub actions: Option<FnPtr>,
    pub params: Vec<ParameterSpec>,
    pub working_dir: Option<String>,
}

/// What a `Task` holds, as plain text and the opaque action handle.
pub struct TaskView {
    pub description: Option<Seq<char>>,
    pub actions: Option<FnPtr>,
    pub params: Seq<ParameterSpecView>,
    pub working_dir: Option<Seq<char>>,
}

impl TaskView {
    /// The task that a fresh scope starts from: nothing set.
    pub open spec fn empty() -> TaskView {
        TaskView {
            description: None,
            actions: None,
            params: Seq::empty(),
            working_dir: None,
        }
    }
}

impl View for Task {
    type V = TaskView;

    open spec fn view(&self) -> TaskView {
        TaskView {
            description: self.description.deep_view(),
            actions: self.actions,
            params: self.params.deep_view(),
            working_dir: self.working_dir.deep_view(),
        }
    }
}

impl DeepView for Task {
    type V = TaskView;

    open spec fn deep_view(&self) -> TaskView {
        self@
    }
}

impl Default for Task {
    fn default() -> (task: Self)
        ensures
            task@ == TaskView::empty(),
    {
        let task = Task { description: None, actions: None, params: Vec::new(), working_dir: None };
        assert(task.params.deep_view() =~= Seq::empty());
        task
    }
}

/// A copy of `params`, element by element.
pub fn clone_params(params: &Vec<ParameterSpec>) -> (copy: Vec<ParameterSpec>)
    ensures
        copy.deep_view() == params.deep_view(),
{
    let mut copy: Vec<ParameterSpec> = Vec::new();
    let mut i: usize = 0;
    while i < params.len()
        invariant
            i <= params.len(),
            copy.len() == i,
            forall|j: int| 0 <= j < i ==> copy[j]@ == params[j]@,
        decreases params.len() - i,
    {
        copy.push(params[i].clone());
        i += 1;
    }
    assert(copy.deep_view() =~= params.deep_view());
    copy
}

impl Clone for Task {
    fn clone(&self) -> (copy: Self)
        ensures
            copy@ == self@,
    {
        Task {
            description: self.description.clone(),
            actions: self.actions.clone(),
            params: clone_params(&self.params),
            working_dir: self.working_dir.clone(),
        }
    }
}

} // verus!
