//! The registry: finished tasks and groups by full path, the order in which
//! root-level scopes were declared, and the default task.

use vstd::prelude::*;
use indexmap::IndexMap;
use crate::error::{TaskError, TaskErrorView};
use crate::ordered_map::{
    group_entries, group_map_get, group_map_get_index, group_map_insert, group_map_len,
    group_map_new, task_entries, task_map_get, task_map_get_index, task_map_insert, task_map_len,
    task_map_new, names_of, with_value,
};
use crate::task::model::{
    Group, GroupView, RegistryEntry, RegistryEntryView, Task, TaskView,
};
use crate::text::{first_index_of, trim, trimmed};

verus! {

/// Finished tasks and groups, keyed by full path and kept in the order in
/// which their scopes were closed.
pub struct TaskRegistry {
    tasks: IndexMap<String, Task>,
    groups: IndexMap<String, Group>,
    root_entries: Vec<RegistryEntry>,
    default_task: Option<String>,
}

/// What a `TaskRegistry` holds, as plain text.
pub struct RegistryView {
    /// Full path and content of every task, in insertion order.
    pub tasks: Seq<(Seq<char>, TaskView)>,
    /// Full path and content of every group, in insertion order.
    pub groups: Seq<(Seq<char>, GroupView)>,
    /// The root-level scopes, in declaration order.
    pub root_entries: Seq<RegistryEntryView>,
    /// The default task, once it was set.
    pub default_task: Option<Seq<char>>,
}

impl RegistryView {
    /// The registry that holds nothing.
    pub open spec fn empty() -> RegistryView {
        RegistryView {
            tasks: Seq::empty(),
            groups: Seq::empty(),
            root_entries: Seq::empty(),
            default_task: None,
        }
    }

    /// The full paths of the tasks, in insertion order.
    pub open spec fn task_paths(self) -> Seq<Seq<char>> {
        names_of(self.tasks)
    }

    /// The full paths of the groups, in insertion order.
    pub open spec fn group_paths(self) -> Seq<Seq<char>> {
        names_of(self.groups)
    }

    /// Whether a task is stored under `path`.
    pub open spec fn contains_task(self, path: Seq<char>) -> bool {
        self.task_paths().contains(path)
    }

    /// Whether a group is stored under `path`.
    pub open spec fn contains_group(self, path: Seq<char>) -> bool {
        self.group_paths().contains(path)
    }

    /// The task stored under `path`, if any.
    pub open spec fn task(self, path: Seq<char>) -> Option<TaskView> {
        let at = first_index_of(self.task_paths(), path);
        if at < self.tasks.len() {
            Some(self.tasks[at].1)
        } else {
            None
        }
    }

    /// The group stored under `path`, if any.
    pub open spec fn group(self, path: Seq<char>) -> Option<GroupView> {
        let at = first_index_of(self.group_paths(), path);
        if at < self.groups.len() {
            Some(self.groups[at].1)
        } else {
            None
        }
    }

    /// The registry after `task` was stored under `path`: a task already
    /// there keeps its place and is replaced, a new one comes last.
    pub open spec fn with_task(self, path: Seq<char>, task: TaskView) -> RegistryView {
        RegistryView { tasks: with_value(self.tasks, path, task), ..self }
    }

    /// The registry after `group` was stored under `path`: a group already
    /// there keeps its place and is replaced, a new one comes last.
    pub open spec fn with_group(self, path: Seq<char>, group: GroupView) -> RegistryView {
        RegistryView { groups: with_value(self.groups, path, group), ..self }
    }

    /// The registry after `entry` was appended to the root-level order.
    pub open spec fn with_root_entry(self, entry: RegistryEntryView) -> RegistryView {
        RegistryView { root_entries: self.root_entries.push(entry), ..self }
    }
}

/// What setting the default task to `name` does to a registry: the error
/// that rejects it, or the registry with the trimmed name stored.
pub open spec fn default_task_set(registry: RegistryView, name: Seq<char>) -> Result<
    RegistryView,
    TaskErrorView,
> {
    if trimmed(name).len() == 0 {
        Err(TaskErrorView::DefaultTaskNameMissing)
    } else if registry.default_task is Some {
        Err(TaskErrorView::DefaultTaskAlreadyDefined)
    } else {
        Ok(RegistryView { default_task: Some(trimmed(name)), ..registry })
    }
}

impl View for TaskRegistry {
    type V = RegistryView;

    closed spec fn view(&self) -> RegistryView {
        RegistryView {
            tasks: task_entries(self.tasks).map_values(|entry: (String, Task)| (entry.0@, entry.1@)),
            groups: group_entries(self.groups).map_values(
                |entry: (String, Group)| (entry.0@, entry.1@),
            ),
            root_entries: self.root_entries.deep_view(),
            default_task: self.default_task.deep_view(),
        }
    }
}

impl TaskRegistry {
    /// A registry that holds nothing.
    pub fn new() -> (registry: Self)
        ensures
            registry@ == RegistryView::empty(),
    {
        let registry = TaskRegistry {
            tasks: task_map_new(),
            groups: group_map_new(),
            root_entries: Vec::new(),
            default_task: None,
        };
        assert(registry@.tasks =~= Seq::empty());
        assert(registry@.groups =~= Seq::empty());
        assert(registry@.root_entries =~= Seq::empty());
        registry
    }

    /// The task stored under `path`.
    pub fn task(&self, path: &str) -> (found: Option<&Task>)
        ensures
            found.deep_view() == self@.task(path@),
    {
        proof {
            self.lemma_task_paths();
            crate::text::lemma_first_index_of(self@.task_paths(), path@);
        }
        task_map_get(&self.tasks, path)
    }

    /// Whether a task is stored under `path`.
    pub fn contains_task(&self, path: &str) -> (found: bool)
        ensures
            found == self@.contains_task(path@),
    {
        proof {
            self.lemma_task_paths();
            crate::text::lemma_first_index_of(self@.task_paths(), path@);
        }
        task_map_get(&self.tasks, path).is_some()
    }

    /// The group stored under `path`.
    pub fn group(&self, path: &str) -> (found: Option<&Group>)
        ensures
            found.deep_view() == self@.group(path@),
    {
        proof {
            self.lemma_group_paths();
            crate::text::lemma_first_index_of(self@.group_paths(), path@);
        }
        group_map_get(&self.groups, path)
    }

    /// Whether a group is stored under `path`.
    pub fn contains_group(&self, path: &str) -> (found: bool)
        ensures
            found == self@.contains_group(path@),
    {
        proof {
            self.lemma_group_paths();
            crate::text::lemma_first_index_of(self@.group_paths(), path@);
        }
        group_map_get(&self.groups, path).is_some()
    }

    /// The root-level scopes, in declaration order.
    pub fn root_entries(&self) -> (entries: &Vec<RegistryEntry>)
        ensures
            entries.deep_view() == self@.root_entries,
    {
        &self.root_entries
    }

    /// How many tasks the registry holds.
    pub fn task_count(&self) -> (count: usize)
        ensures
            count == self@.tasks.len(),
    {
        task_map_len(&self.tasks)
    }

    /// How many groups the registry holds.
    pub fn group_count(&self) -> (count: usize)
        ensures
            count == self@.groups.len(),
    {
        group_map_len(&self.groups)
    }

    /// The task at `index` in insertion order, with its full path.
    pub fn task_at(&self, index: usize) -> (pair: Option<(&String, &Task)>)
        ensures
            pair is Some <==> index < self@.tasks.len(),
            pair matches Some((path, task)) ==> (path@, task@) == self@.tasks[index as int],
    {
        task_map_get_index(&self.tasks, index)
    }

    /// The group at `index` in insertion order, with its full path.
    pub fn group_at(&self, index: usize) -> (pair: Option<(&String, &Group)>)
        ensures
            pair is Some <==> index < self@.groups.len(),
            pair matches Some((path, group)) ==> (path@, group@) == self@.groups[index as int],
    {
        group_map_get_index(&self.groups, index)
    }

    /// The tasks with their full paths, in insertion order.
    pub fn tasks_iter(&self) -> (pairs: Vec<(&String, &Task)>)
        ensures
            pairs.len() == self@.tasks.len(),
            forall|i: int|
                0 <= i < pairs.len() ==> ((#[trigger] pairs[i]).0@, pairs[i].1@) == self@.tasks[i],
    {
        let mut pairs: Vec<(&String, &Task)> = Vec::new();
        let count = self.task_count();
        let mut i: usize = 0;
        while i < count
            invariant
                i <= count,
                count == self@.tasks.len(),
                pairs.len() == i,
                forall|j: int|
                    0 <= j < i ==> ((#[trigger] pairs[j]).0@, pairs[j].1@) == self@.tasks[j],
            decreases count - i,
        {
            match self.task_at(i) {
                Some(pair) => {
                    pairs.push(pair);
                },
                None => {},
            }
            i += 1;
        }
        pairs
    }

    /// The groups with their full paths, in insertion order.
    pub fn groups_iter(&self) -> (pairs: Vec<(&String, &Group)>)
        ensures
            pairs.len() == self@.groups.len(),
            forall|i: int|
                0 <= i < pairs.len() ==> ((#[trigger] pairs[i]).0@, pairs[i].1@) == self@.groups[i],
    {
        let mut pairs: Vec<(&String, &Group)> = Vec::new();
        let count = self.group_count();
        let mut i: usize = 0;
        while i < count
            invariant
                i <= count,
                count == self@.groups.len(),
                pairs.len() == i,
                forall|j: int|
                    0 <= j < i ==> ((#[trigger] pairs[j]).0@, pairs[j].1@) == self@.groups[j],
            decreases count - i,
        {
            match self.group_at(i) {
                Some(pair) => {
                    pairs.push(pair);
                },
                None => {},
            }
            i += 1;
        }
        pairs
    }

    /// Stores `task` under `full_path`.
    pub(crate) fn insert_task_entry(&mut self, full_path: String, task: Task)
        ensures
            final(self)@ == old(self)@.with_task(full_path@, task@),
    {
        proof {
            self.lemma_task_paths();
        }
        let ghost before = task_entries(self.tasks);
        task_map_insert(&mut self.tasks, full_path, task);
        proof {
            let at = first_index_of(old(self)@.task_paths(), full_path@);
            crate::text::lemma_first_index_of(old(self)@.task_paths(), full_path@);
            if at < before.len() {
                assert(before[at].0@ == full_path@);
            }
            assert(self@.tasks =~= old(self)@.with_task(full_path@, task@).tasks);
        }
    }

    /// Stores `group` under `full_path`.
    pub(crate) fn insert_group_entry(&mut self, full_path: String, group: Group)
        ensures
            final(self)@ == old(self)@.with_group(full_path@, group@),
    {
        proof {
            self.lemma_group_paths();
        }
        let ghost before = group_entries(self.groups);
        group_map_insert(&mut self.groups, full_path, group);
        proof {
            let at = first_index_of(old(self)@.group_paths(), full_path@);
            crate::text::lemma_first_index_of(old(self)@.group_paths(), full_path@);
            if at < before.len() {
                assert(before[at].0@ == full_path@);
            }
            assert(self@.groups =~= old(self)@.with_group(full_path@, group@).groups);
        }
    }

    /// Appends `entry` to the root-level order.
    pub(crate) fn push_root_entry(&mut self, entry: RegistryEntry)
        ensures
            final(self)@ == old(self)@.with_root_entry(entry@),
    {
        self.root_entries.push(entry);
        assert(self@.root_entries =~= old(self)@.root_entries.push(entry@));
    }

    /// Makes `name`, trimmed, the default task. Fails when the trimmed name
    /// is empty or a default task was set before; the registry is then
    /// unchanged.
    pub fn set_default_task(&mut self, name: &str) -> (result: Result<(), TaskError>)
        ensures
            match result {
                Ok(()) => default_task_set(old(self)@, name@) == Ok::<
                    RegistryView,
                    TaskErrorView,
                >(final(self)@),
                Err(error) => default_task_set(old(self)@, name@) == Err::<
                    RegistryView,
                    TaskErrorView,
                >(error@) && final(self)@ == old(self)@,
            },
    {
        let name = trim(name);
        if name.unicode_len() == 0 {
            return Err(TaskError::DefaultTaskNameMissing);
        }
        if self.default_task.is_some() {
            return Err(TaskError::DefaultTaskAlreadyDefined);
        }
        self.default_task = Some(name.to_owned());
        Ok(())
    }

    /// The default task, if one was set.
    pub fn default_task(&self) -> (name: Option<String>)
        ensures
            name.deep_view() == self@.default_task,
    {
        self.default_task.clone()
    }

    /// Stores an empty task under `name`.
    pub fn insert_task_for_test(&mut self, name: &str)
        ensures
            final(self)@ == old(self)@.with_task(name@, TaskView::empty()),
    {
        self.insert_task_entry(name.to_owned(), Task::default());
    }

    /// The task paths of the view are the keys of the task map.
    proof fn lemma_task_paths(&self)
        ensures
            self@.task_paths() == crate::ordered_map::keys_of(task_entries(self.tasks)),
            self@.tasks.len() == task_entries(self.tasks).len(),
    {
        assert(self@.task_paths() =~= crate::ordered_map::keys_of(task_entries(self.tasks)));
    }

    /// The group paths of the view are the keys of the group map.
    proof fn lemma_group_paths(&self)
        ensures
            self@.group_paths() == crate::ordered_map::keys_of(group_entries(self.groups)),
            self@.groups.len() == group_entries(self.groups).len(),
    {
        assert(self@.group_paths() =~= crate::ordered_map::keys_of(group_entries(self.groups)));
    }
}

} // verus!
