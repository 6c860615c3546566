//! Name resolution: from what the user typed to one task or group, to the
//! candidates it could mean, or to nothing.

use vstd::prelude::*;
use crate::task::model::{leaf_name, leaf_of};
use crate::task::registry::task_registry::TaskRegistry;
use crate::text::{contains_char, same_text, trim, trimmed};

verus! {

/// What a task name resolves to.
#[derive(Debug)]
pub enum TaskLookup {
    /// Exactly one task: its full path.
    Found { full_path: String },
    /// Two or more tasks share the leaf name: their full paths, in the order
    /// in which the tasks were registered.
    Ambiguous(Vec<String>),
    /// No task.
    NotFound,
}

/// What a group name resolves to.
#[derive(Debug)]
pub enum GroupLookup {
    /// Exactly one group: its full path.
    Found(String),
    /// Two or more groups share the leaf name: their full paths, in the
    /// order in which the groups were registered.
    Ambiguous(Vec<String>),
    /// No group.
    NotFound,
}

/// What a lookup found, as plain text.
pub enum LookupView {
    Found { full_path: Seq<char> },
    Ambiguous(Seq<Seq<char>>),
    NotFound,
}

impl View for TaskLookup {
    type V = LookupView;

    open spec fn view(&self) -> LookupView {
        match self {
            TaskLookup::Found { full_path } => LookupView::Found { full_path: full_path@ },
            TaskLookup::Ambiguous(paths) => LookupView::Ambiguous(paths.deep_view()),
            TaskLookup::NotFound => LookupView::NotFound,
        }
    }
}

impl View for GroupLookup {
    type V = LookupView;

    open spec fn view(&self) -> LookupView {
        match self {
            GroupLookup::Found(full_path) => LookupView::Found { full_path: full_path@ },
            GroupLookup::Ambiguous(paths) => LookupView::Ambiguous(paths.deep_view()),
            GroupLookup::NotFound => LookupView::NotFound,
        }
    }
}

/// The paths among `paths` whose leaf name is `name`, in order.
pub open spec fn paths_with_leaf(paths: Seq<Seq<char>>, name: Seq<char>) -> Seq<Seq<char>> {
    paths.filter(|path: Seq<char>| leaf_of(path) == name)
}

/// What `identifier` resolves to among `paths`.
///
/// The identifier is trimmed. A blank one resolves to nothing. One that is a
/// full path in `paths` resolves to that path. Any other identifier with a
/// `.` in it resolves to nothing: dotted names are never matched by leaf. A
/// bare name resolves by leaf: to nothing when no path has it as its leaf,
/// to the one path that has, or to all of them when there are several.
pub open spec fn resolve_name(paths: Seq<Seq<char>>, identifier: Seq<char>) -> LookupView {
    let name = trimmed(identifier);
    let matches = paths_with_leaf(paths, name);
    if name.len() == 0 {
        LookupView::NotFound
    } else if paths.contains(name) {
        LookupView::Found { full_path: name }
    } else if name.contains('.') {
        LookupView::NotFound
    } else if matches.len() == 0 {
        LookupView::NotFound
    } else if matches.len() == 1 {
        LookupView::Found { full_path: matches[0] }
    } else {
        LookupView::Ambiguous(matches)
    }
}

/// An identifier that, trimmed, is a full path resolves to that path,
/// whatever other paths share its leaf name.
pub proof fn lemma_full_path_is_found(paths: Seq<Seq<char>>, identifier: Seq<char>)
    requires
        trimmed(identifier).len() > 0,
        paths.contains(trimmed(identifier)),
    ensures
        resolve_name(paths, identifier) == (LookupView::Found { full_path: trimmed(identifier) }),
{
}

/// A bare leaf name that is not itself a full path resolves by the number of
/// paths that share it: to nothing exactly when there is none, to a path
/// exactly when there is one, and to the list of all of them exactly when
/// there are two or more. The list holds the paths with that leaf and no
/// others.
pub proof fn lemma_leaf_resolution(paths: Seq<Seq<char>>, identifier: Seq<char>)
    requires
        trimmed(identifier).len() > 0,
        !trimmed(identifier).contains('.'),
        !paths.contains(trimmed(identifier)),
    ensures
        paths_with_leaf(paths, trimmed(identifier)).len() == 0 <==> resolve_name(paths, identifier)
            == LookupView::NotFound,
        paths_with_leaf(paths, trimmed(identifier)).len() == 1 <==> resolve_name(
            paths,
            identifier,
        ) is Found,
        paths_with_leaf(paths, trimmed(identifier)).len() >= 2 <==> resolve_name(
            paths,
            identifier,
        ) is Ambiguous,
        resolve_name(paths, identifier) matches LookupView::Found { full_path } ==> paths.contains(
            full_path,
        ) && leaf_of(full_path) == trimmed(identifier),
        resolve_name(paths, identifier) matches LookupView::Ambiguous(candidates) ==> candidates
            == paths_with_leaf(paths, trimmed(identifier)),
        forall|path: Seq<char>|
            paths_with_leaf(paths, trimmed(identifier)).contains(path) <==> paths.contains(path)
                && leaf_of(path) == trimmed(identifier),
{
    let name = trimmed(identifier);
    lemma_paths_with_leaf(paths, name);
    let matches = paths_with_leaf(paths, name);
    if matches.len() == 1 {
        assert(matches.contains(matches[0]));
    }
}

/// `paths_with_leaf` keeps the paths with that leaf and no others.
pub proof fn lemma_paths_with_leaf(paths: Seq<Seq<char>>, name: Seq<char>)
    ensures
        forall|path: Seq<char>|
            paths_with_leaf(paths, name).contains(path) <==> paths.contains(path) && leaf_of(path)
                == name,
{
    let pred = |path: Seq<char>| leaf_of(path) == name;
    let matches = paths.filter(pred);
    assert forall|path: Seq<char>| paths.contains(path) && leaf_of(path) == name implies matches.contains(
        path,
    ) by {
        let i = choose|i: int| 0 <= i < paths.len() && paths[i] == path;
        paths.lemma_filter_contains(pred, i);
    }
    assert forall|path: Seq<char>| matches.contains(path) implies paths.contains(path) && leaf_of(
        path,
    ) == name by {
        let i = choose|i: int| 0 <= i < matches.len() && matches[i] == path;
        paths.lemma_filter_pred(pred, i);
        paths.lemma_filter_contains_rev(pred, path);
    }
}

/// The paths among `paths` whose leaf name is `name`, in order.
fn leaf_matches(paths: &Vec<&String>, name: &str) -> (matches: Vec<String>)
    ensures
        matches.deep_view() == paths_with_leaf(paths.deep_view(), name@),
{
    let ghost all = paths.deep_view();
    let ghost pred = |path: Seq<char>| leaf_of(path) == name@;
    let mut matches: Vec<String> = Vec::new();
    let mut i: usize = 0;
    proof {
        reveal(Seq::filter);
        assert(all.subrange(0, 0) =~= Seq::<Seq<char>>::empty());
        assert(matches.deep_view() =~= Seq::<Seq<char>>::empty());
    }
    while i < paths.len()
        invariant
            i <= paths.len(),
            all == paths.deep_view(),
            pred == (|path: Seq<char>| leaf_of(path) == name@),
            matches.deep_view() == all.subrange(0, i as int).filter(pred),
        decreases paths.len() - i,
    {
        let path: &String = paths[i];
        let ghost before = matches.deep_view();
        let keep = same_text(leaf_name(path.as_str()), name);
        if keep {
            matches.push(path.clone());
        }
        proof {
            reveal(Seq::filter);
            let prefix = all.subrange(0, i + 1);
            assert(prefix.drop_last() =~= all.subrange(0, i as int));
            assert(prefix.last() == path@);
            if keep {
                assert(matches.deep_view() =~= before.push(path@));
            } else {
                assert(matches.deep_view() =~= before);
            }
        }
        i += 1;
    }
    assert(all.subrange(0, i as int) =~= all);
    matches
}

/// What `identifier` resolves to among `paths`.
fn resolve_among(paths: &Vec<&String>, identifier: &str) -> (lookup: TaskLookup)
    ensures
        lookup@ == resolve_name(paths.deep_view(), identifier@),
{
    let name = trim(identifier);
    if name.unicode_len() == 0 {
        return TaskLookup::NotFound;
    }
    if holds_path(paths, name) {
        return TaskLookup::Found { full_path: name.to_owned() };
    }
    if contains_char(name, '.') {
        return TaskLookup::NotFound;
    }
    let mut matches = leaf_matches(paths, name);
    if matches.len() == 0 {
        TaskLookup::NotFound
    } else if matches.len() == 1 {
        let ghost only = matches.deep_view()[0];
        let full_path = matches.pop().unwrap();
        assert(full_path@ == only);
        TaskLookup::Found { full_path }
    } else {
        TaskLookup::Ambiguous(matches)
    }
}

/// Tells whether `path` is one of `paths`.
fn holds_path(paths: &Vec<&String>, path: &str) -> (found: bool)
    ensures
        found == paths.deep_view().contains(path@),
{
    let mut i: usize = 0;
    while i < paths.len()
        invariant
            i <= paths.len(),
            forall|j: int| 0 <= j < i ==> paths.deep_view()[j] != path@,
        decreases paths.len() - i,
    {
        if same_text(paths[i].as_str(), path) {
            assert(paths.deep_view()[i as int] == path@);
            return true;
        }
        i += 1;
    }
    false
}

impl TaskRegistry {
    /// The full paths of the tasks, in the order in which they were
    /// registered.
    pub fn task_paths(&self) -> (paths: Vec<&String>)
        ensures
            paths.deep_view() == self@.task_paths(),
    {
        let mut paths: Vec<&String> = Vec::new();
        let count = self.task_count();
        let mut i: usize = 0;
        while i < count
            invariant
                i <= count,
                count == self@.tasks.len(),
                paths.len() == i,
                forall|j: int| 0 <= j < i ==> paths[j]@ == self@.tasks[j].0,
            decreases count - i,
        {
            match self.task_at(i) {
                Some((path, _)) => {
                    paths.push(path);
                },
                None => {},
            }
            i += 1;
        }
        assert(paths.deep_view() =~= self@.task_paths());
        paths
    }

    /// The full paths of the groups, in the order in which they were
    /// registered.
    pub fn group_paths(&self) -> (paths: Vec<&String>)
        ensures
            paths.deep_view() == self@.group_paths(),
    {
        let mut paths: Vec<&String> = Vec::new();
        let count = self.group_count();
        let mut i: usize = 0;
        while i < count
            invariant
                i <= count,
                count == self@.groups.len(),
                paths.len() == i,
                forall|j: int| 0 <= j < i ==> paths[j]@ == self@.groups[j].0,
            decreases count - i,
        {
            match self.group_at(i) {
                Some((path, _)) => {
                    paths.push(path);
                },
                None => {},
            }
            i += 1;
        }
        assert(paths.deep_view() =~= self@.group_paths());
        paths
    }

    /// Resolves what the user typed to a task: see `resolve_name`.
    pub fn resolve_task(&self, identifier: &str) -> (lookup: TaskLookup)
        ensures
            lookup@ == resolve_name(self@.task_paths(), identifier@),
    {
        let paths = self.task_paths();
        resolve_among(&paths, identifier)
    }

    /// Resolves what the user typed to a group: see `resolve_name`.
    pub fn resolve_group(&self, identifier: &str) -> (lookup: GroupLookup)
        ensures
            lookup@ == resolve_name(self@.group_paths(), identifier@),
    {
        let paths = self.group_paths();
        match resolve_among(&paths, identifier) {
            TaskLookup::Found { full_path } => GroupLookup::Found(full_path),
            TaskLookup::Ambiguous(candidates) => GroupLookup::Ambiguous(candidates),
            TaskLookup::NotFound => GroupLookup::NotFound,
        }
    }
}

} // verus!
