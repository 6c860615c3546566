//! Groups and the entries that list what a scope declared.

use vstd::prelude::*;

verus! {

/// A reference to a finished task or group, by its full path.
#[derive(Debug)]
pub enum RegistryEntry {
    Task(String),
    Group(String),
}

/// What a `RegistryEntry` holds, as plain text.
pub enum RegistryEntryView {
    Task(Seq<char>),
    Group(Seq<char>),
}

impl RegistryEntryView {
    /// The full path that the entry refers to.
    pub open spec fn path(self) -> Seq<char> {
        match self {
            RegistryEntryView::Task(path) => path,
            RegistryEntryView::Group(path) => path,
        }
    }
}

impl View for RegistryEntry {
    type V = RegistryEntryView;

    open spec fn view(&self) -> RegistryEntryView {
        match self {
            RegistryEntry::Task(path) => RegistryEntryView::Task(path@),
            RegistryEntry::Group(path) => RegistryEntryView::Group(path@),
        }
    }
}

impl DeepView for RegistryEntry {
    type V = RegistryEntryView;

    open spec fn deep_view(&self) -> RegistryEntryView {
        self@
    }
}

impl Clone for RegistryEntry {
    fn clone(&self) -> (copy: Self)
        ensures
            copy@ == self@,
    {
        match self {
            RegistryEntry::Task(path) => RegistryEntry::Task(path.clone()),
            RegistryEntry::Group(path) => RegistryEntry::Group(path.clone()),
        }
    }
}

/// A namespace: what a finished `group()` scope leaves behind. `entries`
/// keeps declaration order.
#[derive(Debug)]
pub struct Group {
    pub description: Option<String>,
    pub entries: Vec<RegistryEntry>,
}

/// What a `Group` holds, as plain text.
pub struct GroupView {
    pub description: Option<Seq<char>>,
    pub entries: Seq<RegistryEntryView>,
}

impl GroupView {
    /// The group that a fresh scope starts from: nothing set.
    pub open spec fn empty() -> GroupView {
        GroupView { description: None, entries: Seq::empty() }
    }
}

impl View for Group {
    type V = GroupView;

    open spec fn view(&self) -> GroupView {
        GroupView {
            description: self.description.deep_view(),
            entries: self.entries.deep_view(),
        }
    }
}

impl DeepView for Group {
    type V = GroupView;

    open spec fn deep_view(&self) -> GroupView {
        self@
    }
}

impl Default for Group {
    fn default() -> (group: Self)
        ensures
            group@ == GroupView::empty(),
    {
        let group = Group { description: None, entries: Vec::new() };
        assert(group.entries.deep_view() =~= Seq::empty());
        group
    }
}

/// A copy of `entries`, element by element.
pub fn clone_entries(entries: &Vec<RegistryEntry>) -> (copy: Vec<RegistryEntry>)
    ensures
        copy.deep_view() == entries.deep_view(),
{
    let mut copy: Vec<RegistryEntry> = Vec::new();
    let mut i: usize = 0;
    while i < entries.len()
        invariant
            i <= entries.len(),
            copy.len() == i,
            forall|j: int| 0 <= j < i ==> copy[j]@ == entries[j]@,
        decreases entries.len() - i,
    {
        copy.push(entries[i].clone());
        i += 1;
    }
    assert(copy.deep_view() =~= entries.deep_view());
    copy
}

impl Clone for Group {
    fn clone(&self) -> (copy: Self)
        ensures
            copy@ == self@,
    {
        Group { description: self.description.clone(), entries: clone_entries(&self.entries) }
    }
}

} // verus!
