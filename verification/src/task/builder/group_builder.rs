//! The group that an open `group()` scope is filling.

use vstd::prelude::*;
use crate::task::model::{Group, GroupView, RegistryEntry};

verus! {

/// A group under construction, with the full path it will be stored under.
#[derive(Debug)]
pub struct GroupBuilder {
    full_path: String,
    group: Group,
}

/// What a `GroupBuilder` holds, as plain text.
pub struct GroupBuilderView {
    pub full_path: Seq<char>,
    pub group: GroupView,
}

impl View for GroupBuilder {
    type V = GroupBuilderView;

    closed spec fn view(&self) -> GroupBuilderView {
        GroupBuilderView { full_path: self.full_path@, group: self.group@ }
    }
}

impl GroupBuilder {
    /// A builder for the group at `full_path`, with nothing set.
    pub fn new(full_path: String) -> (builder: Self)
        ensures
            builder@ == (GroupBuilderView { full_path: full_path@, group: GroupView::empty() }),
    {
        GroupBuilder { full_path, group: Group::default() }
    }

    /// The full path that the group will be stored under.
    pub fn full_path(&self) -> (path: &String)
        ensures
            path@ == self@.full_path,
    {
        &self.full_path
    }

    /// Sets the description, replacing an earlier one.
    pub fn set_description(&mut self, desc: &str)
        ensures
            final(self)@ == (GroupBuilderView {
                group: GroupView { description: Some(desc@), ..old(self)@.group },
                ..old(self)@
            }),
    {
        self.group.description = Some(desc.to_owned());
    }

    /// Appends `entry` to the entries of the group.
    pub fn add_entry(&mut self, entry: RegistryEntry)
        ensures
            final(self)@ == (GroupBuilderView {
                group: GroupView {
                    entries: old(self)@.group.entries.push(entry@),
                    ..old(self)@.group
                },
                ..old(self)@
            }),
    {
        self.group.entries.push(entry);
        assert(self.group.entries.deep_view() =~= old(self).group.entries.deep_view().push(entry@));
    }

    /// The full path and the finished group.
    pub fn build(self) -> (built: (String, Group))
        ensures
            built.0@ == self@.full_path,
            built.1@ == self@.group,
    {
        (self.full_path, self.group)
    }
}

} // verus!
