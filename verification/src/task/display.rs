//! The listing: what the registry holds, as items for a renderer.

use vstd::prelude::*;
use crate::task::model::{leaf_name, leaf_of, RegistryEntry, RegistryEntryView, TaskView};
use crate::task::registry::resolver::{lemma_paths_with_leaf, paths_with_leaf, resolve_name};
use crate::task::registry::{GroupLookup, LookupView, RegistryView, TaskRegistry};
use crate::text::{concat, framed, lemma_last_index_of, trimmed};

verus! {

/// Whether an item stands for a group or for a task.
#[derive(Debug, Clone, Copy, PartialEq, Eq, Structural)]
pub enum ListItemKind {
    Group,
    Task,
}

/// How loud a message is.
#[derive(Debug, Clone, Copy, PartialEq, Eq, Structural)]
pub enum ListMessageLevel {
    Info,
    Warn,
    Error,
}

/// How a listing is laid out.
#[derive(Debug, Clone, Copy, PartialEq, Eq, Structural)]
pub enum ListRenderMode {
    /// Groups and tasks by leaf name, indented by depth.
    Tree,
    /// Tasks only, by full path.
    Flat,
}

/// One line of a listing.
#[derive(Debug)]
pub struct ListItem {
    pub kind: ListItemKind,
    pub depth: usize,
    pub name: String,
    pub full_name: String,
    pub description: Option<String>,
}

/// What a `ListItem` holds, as plain text.
pub struct ListItemView {
    pub kind: ListItemKind,
    pub depth: nat,
    pub name: Seq<char>,
    pub full_name: Seq<char>,
    pub description: Option<Seq<char>>,
}

impl View for ListItem {
    type V = ListItemView;

    open spec fn view(&self) -> ListItemView {
        ListItemView {
            kind: self.kind,
            depth: self.depth as nat,
            name: self.name@,
            full_name: self.full_name@,
            description: self.description.deep_view(),
        }
    }
}

impl DeepView for ListItem {
    type V = ListItemView;

    open spec fn deep_view(&self) -> ListItemView {
        self@
    }
}

impl ListItem {
    /// The item for the group at `full_name`.
    pub fn group(depth: usize, full_name: &str, description: Option<String>) -> (item: Self)
        ensures
            item@ == group_item(full_name@, depth as nat, description.deep_view()),
    {
        ListItem {
            kind: ListItemKind::Group,
            depth,
            name: leaf_name(full_name).to_owned(),
            full_name: full_name.to_owned(),
            description,
        }
    }

    /// The item for the task at `full_name`.
    pub fn task(depth: usize, full_name: &str, description: Option<String>) -> (item: Self)
        ensures
            item@ == task_item(full_name@, depth as nat, description.deep_view()),
    {
        ListItem {
            kind: ListItemKind::Task,
            depth,
            name: leaf_name(full_name).to_owned(),
            full_name: full_name.to_owned(),
            description,
        }
    }
}

/// A message that goes with a listing.
#[derive(Debug)]
pub struct ListMessage {
    pub level: ListMessageLevel,
    pub text: String,
}

/// What a `ListMessage` holds, as plain text.
pub struct ListMessageView {
    pub level: ListMessageLevel,
    pub text: Seq<char>,
}

impl View for ListMessage {
    type V = ListMessageView;

    open spec fn view(&self) -> ListMessageView {
        ListMessageView { level: self.level, text: self.text@ }
    }
}

impl DeepView for ListMessage {
    type V = ListMessageView;

    open spec fn deep_view(&self) -> ListMessageView {
        self@
    }
}

/// A listing: the items in the order in which they are shown, and the
/// messages that go with them.
#[derive(Debug)]
pub struct ListOutput {
    pub items: Vec<ListItem>,
    pub messages: Vec<ListMessage>,
}

/// What a `ListOutput` holds, as plain text.
pub struct ListOutputView {
    pub items: Seq<ListItemView>,
    pub messages: Seq<ListMessageView>,
}

impl View for ListOutput {
    type V = ListOutputView;

    open spec fn view(&self) -> ListOutputView {
        ListOutputView {
            items: self.items.deep_view(),
            messages: self.messages.deep_view(),
        }
    }
}

impl Default for ListOutput {
    fn default() -> (output: Self)
        ensures
            output@ == (ListOutputView { items: Seq::empty(), messages: Seq::empty() }),
    {
        let output = ListOutput { items: Vec::new(), messages: Vec::new() };
        assert(output.items.deep_view() =~= Seq::empty());
        assert(output.messages.deep_view() =~= Seq::empty());
        output
    }
}

impl ListOutput {
    /// Appends a message.
    pub fn push_message(&mut self, level: ListMessageLevel, text: String)
        ensures
            final(self)@ == (ListOutputView {
                messages: old(self)@.messages.push(ListMessageView { level, text: text@ }),
                ..old(self)@
            }),
    {
        let message = ListMessage { level, text };
        self.messages.push(message);
        assert(self.messages.deep_view() =~= old(self).messages.deep_view().push(message@));
    }

    /// Appends an item.
    pub fn push_item(&mut self, item: ListItem)
        ensures
            final(self)@ == (ListOutputView {
                items: old(self)@.items.push(item@),
                ..old(self)@
            }),
    {
        self.items.push(item);
        assert(self.items.deep_view() =~= old(self).items.deep_view().push(item@));
    }
}

/// The item for the task at `full_path`, shown by its leaf name.
pub open spec fn task_item(full_path: Seq<char>, depth: nat, description: Option<Seq<char>>) -> ListItemView {
    ListItemView {
        kind: ListItemKind::Task,
        depth,
        name: leaf_of(full_path),
        full_name: full_path,
        description,
    }
}

/// The item for the group at `full_path`, shown by its leaf name.
pub open spec fn group_item(full_path: Seq<char>, depth: nat, description: Option<Seq<char>>) -> ListItemView {
    ListItemView {
        kind: ListItemKind::Group,
        depth,
        name: leaf_of(full_path),
        full_name: full_path,
        description,
    }
}

/// The description of the task at `full_path`; none for a path that names
/// no task.
pub open spec fn task_description(registry: RegistryView, full_path: Seq<char>) -> Option<
    Seq<char>,
> {
    match registry.task(full_path) {
        Some(task) => task.description,
        None => None,
    }
}

/// The description of the group at `full_path`; none for a path that names
/// no group.
pub open spec fn group_description(registry: RegistryView, full_path: Seq<char>) -> Option<
    Seq<char>,
> {
    match registry.group(full_path) {
        Some(group) => group.description,
        None => None,
    }
}

/// A name never resolves to an empty path.
proof fn lemma_found_path(paths: Seq<Seq<char>>, identifier: Seq<char>)
    ensures
        resolve_name(paths, identifier) matches LookupView::Found { full_path } ==> full_path.len()
            > 0,
{
    let name = trimmed(identifier);
    let matches = paths_with_leaf(paths, name);
    if name.len() > 0 && !paths.contains(name) && matches.len() == 1 {
        lemma_paths_with_leaf(paths, name);
        assert(matches.contains(matches[0]));
        lemma_last_index_of(matches[0], '.');
    }
}

/// The length of the longest of `paths`.
pub open spec fn longest(paths: Seq<Seq<char>>) -> nat
    decreases paths.len(),
{
    if paths.len() == 0 {
        0
    } else if paths.last().len() > longest(paths.drop_last()) {
        paths.last().len()
    } else {
        longest(paths.drop_last())
    }
}

/// None of `paths` is longer than the longest.
pub proof fn lemma_longest(paths: Seq<Seq<char>>, path: Seq<char>)
    requires
        paths.contains(path),
    ensures
        path.len() <= longest(paths),
    decreases paths.len(),
{
    if paths.len() > 0 && paths.last() != path {
        let k = choose|k: int| 0 <= k < paths.len() && paths[k] == path;
        assert(paths.drop_last()[k] == path);
        lemma_longest(paths.drop_last(), path);
    }
}

/// Whether the group entry `full_path` of the group at `parent` is opened
/// in a listing: it is where a group is stored under that path and the path
/// is longer than that of the group that holds it, as the path of every
/// scope is longer than that of the scope around it.
pub open spec fn opens(registry: RegistryView, parent: Seq<char>, full_path: Seq<char>) -> bool {
    registry.contains_group(full_path) && full_path.len() > parent.len()
}

/// The items for the group at `full_path` and for what it holds: the group
/// itself at `depth`, then its entries one level deeper, in declaration
/// order. For a path that names no group, only the item for it is listed.
pub open spec fn group_items(registry: RegistryView, full_path: Seq<char>, depth: nat) -> Seq<
    ListItemView,
>
    decreases longest(registry.group_paths()) - full_path.len(), 1nat, 0nat,
{
    let own = group_item(full_path, depth, group_description(registry, full_path));
    match registry.group(full_path) {
        Some(group) => seq![own] + entries_items(registry, full_path, group.entries, depth + 1),
        None => seq![own],
    }
}

/// The items for `entries`, the entries of the group at `parent`, in order:
/// one for each task; for each group that `opens` what `group_items` lists,
/// and for any other group the item for it alone.
pub open spec fn entries_items(
    registry: RegistryView,
    parent: Seq<char>,
    entries: Seq<RegistryEntryView>,
    depth: nat,
) -> Seq<ListItemView>
    decreases longest(registry.group_paths()) - parent.len(), 0nat, entries.len(),
{
    if entries.len() == 0 {
        Seq::empty()
    } else {
        entries_items(registry, parent, entries.drop_last(), depth) + match entries.last() {
            RegistryEntryView::Task(full_path) => seq![
                task_item(full_path, depth, task_description(registry, full_path)),
            ],
            RegistryEntryView::Group(full_path) => if opens(registry, parent, full_path) {
                proof {
                    lemma_longest(registry.group_paths(), full_path);
                }
                group_items(registry, full_path, depth)
            } else {
                seq![group_item(full_path, depth, group_description(registry, full_path))]
            },
        }
    }
}

/// One item for each task of `tasks`, in order, at depth 0.
pub open spec fn all_task_items(tasks: Seq<(Seq<char>, TaskView)>) -> Seq<ListItemView> {
    tasks.map_values(|entry: (Seq<char>, TaskView)| task_item(entry.0, 0, entry.1.description))
}

/// A warning with text `text`.
pub open spec fn warning(text: Seq<char>) -> ListMessageView {
    ListMessageView { level: ListMessageLevel::Warn, text }
}

/// The warnings for a group name that several groups go by.
pub open spec fn ambiguous_group_messages(name: Seq<char>, candidates: Seq<Seq<char>>) -> Seq<
    ListMessageView,
> {
    seq![warning("Group '"@ + name + "' matches multiple candidates:"@)] + candidates.map_values(
        |candidate: Seq<char>| warning("  - "@ + candidate),
    ) + seq![warning("Please use the fully-qualified name (e.g. parent.child)."@)]
}

/// The listing of `registry`.
///
/// For a group name, the name is resolved as the resolver resolves names:
/// the group it resolves to is listed with all that it holds; a name that
/// several groups go by, or none, yields warnings and no items. Without a
/// group name, the root-level scopes are listed in declaration order with
/// all that they hold; a registry without root-level scopes lists its
/// tasks.
pub open spec fn listing(registry: RegistryView, group: Option<Seq<char>>) -> ListOutputView {
    match group {
        Some(name) => match resolve_name(registry.group_paths(), name) {
            LookupView::Found { full_path } => ListOutputView {
                items: group_items(registry, full_path, 0),
                messages: Seq::empty(),
            },
            LookupView::Ambiguous(candidates) => ListOutputView {
                items: Seq::empty(),
                messages: ambiguous_group_messages(name, candidates),
            },
            LookupView::NotFound => ListOutputView {
                items: Seq::empty(),
                messages: seq![warning("Group '"@ + name + "' does not exist."@)],
            },
        },
        None => if registry.root_entries.len() == 0 {
            ListOutputView { items: all_task_items(registry.tasks), messages: Seq::empty() }
        } else {
            ListOutputView {
                items: entries_items(registry, Seq::empty(), registry.root_entries, 0),
                messages: Seq::empty(),
            }
        },
    }
}

impl TaskRegistry {
    /// The listing of the registry, or of the group `group`: see `listing`.
    pub fn collect_list_output(&self, group: Option<&str>) -> (output: ListOutput)
        ensures
            output@ == listing(self@, group.deep_view()),
    {
        let mut output = ListOutput::default();
        match group {
            Some(name) => {
                match self.resolve_group(name) {
                    GroupLookup::Found(full_path) => {
                        proof {
                            lemma_found_path(self@.group_paths(), name@);
                        }
                        self.collect_group(full_path.as_str(), 0, &mut output);
                        assert(output@.items =~= group_items(self@, full_path@, 0));
                    },
                    GroupLookup::Ambiguous(candidates) => {
                        output.push_message(
                            ListMessageLevel::Warn,
                            framed("Group '", name, "' matches multiple candidates:"),
                        );
                        let ghost head = output@.messages;
                        let mut i: usize = 0;
                        while i < candidates.len()
                            invariant
                                i <= candidates.len(),
                                output@.items == Seq::<ListItemView>::empty(),
                                output@.messages == head + candidates.deep_view().subrange(
                                    0,
                                    i as int,
                                ).map_values(|candidate: Seq<char>| warning("  - "@ + candidate)),
                            decreases candidates.len() - i,
                        {
                            output.push_message(
                                ListMessageLevel::Warn,
                                concat("  - ", candidates[i].as_str()),
                            );
                            proof {
                                let done = candidates.deep_view().subrange(0, i as int);
                                let next = candidates.deep_view().subrange(0, i + 1);
                                assert(next =~= done.push(candidates[i as int]@));
                                assert(output@.messages =~= head + next.map_values(
                                    |candidate: Seq<char>| warning("  - "@ + candidate),
                                ));
                            }
                            i += 1;
                        }
                        assert(candidates.deep_view().subrange(0, i as int)
                            =~= candidates.deep_view());
                        output.push_message(
                            ListMessageLevel::Warn,
                            "Please use the fully-qualified name (e.g. parent.child).".to_owned(),
                        );
                        assert(output@.messages =~= ambiguous_group_messages(
                            name@,
                            candidates.deep_view(),
                        ));
                    },
                    GroupLookup::NotFound => {
                        output.push_message(
                            ListMessageLevel::Warn,
                            framed("Group '", name, "' does not exist."),
                        );
                        assert(output@.messages =~= seq![
                            warning("Group '"@ + name@ + "' does not exist."@),
                        ]);
                    },
                }
                return output;
            },
            None => {},
        }
        let roots = self.root_entries();
        if roots.len() == 0 {
            let count = self.task_count();
            let mut i: usize = 0;
            while i < count
                invariant
                    i <= count,
                    count == self@.tasks.len(),
                    output@.messages == Seq::<ListMessageView>::empty(),
                    output@.items == all_task_items(self@.tasks.subrange(0, i as int)),
                decreases count - i,
            {
                match self.task_at(i) {
                    Some((full_path, task)) => {
                        output.push_item(
                            ListItem::task(0, full_path.as_str(), task.description.clone()),
                        );
                        proof {
                            let done = self@.tasks.subrange(0, i as int);
                            let next = self@.tasks.subrange(0, i + 1);
                            assert(next =~= done.push(self@.tasks[i as int]));
                            assert(output@.items =~= all_task_items(next));
                        }
                    },
                    None => {},
                }
                i += 1;
            }
            assert(self@.tasks.subrange(0, i as int) =~= self@.tasks);
            return output;
        }
        proof {
            reveal_strlit("");
            assert(""@ =~= Seq::<char>::empty());
        }
        self.collect_entries("", roots, 0, &mut output);
        assert(output@.items =~= entries_items(self@, Seq::empty(), self@.root_entries, 0));
        output
    }

    /// Appends the items for `entries`, the entries of the group at
    /// `parent`: see `entries_items`.
    fn collect_entries(
        &self,
        parent: &str,
        entries: &Vec<RegistryEntry>,
        depth: usize,
        output: &mut ListOutput,
    )
        requires
            depth <= parent@.len(),
        ensures
            final(output)@ == (ListOutputView {
                items: old(output)@.items + entries_items(
                    self@,
                    parent@,
                    entries.deep_view(),
                    depth as nat,
                ),
                ..old(output)@
            }),
        decreases longest(self@.group_paths()) - parent@.len(), 0nat, entries.len(),
    {
        let ghost all = entries.deep_view();
        let ghost head = output@.items;
        let parent_length = parent.unicode_len();
        let mut i: usize = 0;
        assert(all.subrange(0, 0) =~= Seq::<RegistryEntryView>::empty());
        assert(head + Seq::<ListItemView>::empty() =~= head);
        while i < entries.len()
            invariant
                i <= entries.len(),
                all == entries.deep_view(),
                parent_length == parent@.len(),
                depth <= parent@.len(),
                output@.messages == old(output)@.messages,
                output@.items == head + entries_items(
                    self@,
                    parent@,
                    all.subrange(0, i as int),
                    depth as nat,
                ),
            decreases entries.len() - i,
        {
            let ghost done = all.subrange(0, i as int);
            let ghost next = all.subrange(0, i + 1);
            let ghost before = output@.items;
            proof {
                assert(next.drop_last() =~= done);
                assert(next.last() == entries[i as int]@);
            }
            match &entries[i] {
                RegistryEntry::Task(full_path) => {
                    self.collect_task(full_path.as_str(), depth, output);
                    assert(output@.items =~= head + (entries_items(
                        self@,
                        parent@,
                        done,
                        depth as nat,
                    ) + seq![
                        task_item(full_path@, depth as nat, task_description(self@, full_path@)),
                    ]));
                },
                RegistryEntry::Group(full_path) => {
                    let deeper = full_path.as_str().unicode_len() > parent_length;
                    if deeper && self.contains_group(full_path.as_str()) {
                        proof {
                            lemma_longest(self@.group_paths(), full_path@);
                        }
                        self.collect_group(full_path.as_str(), depth, output);
                        assert(output@.items =~= head + (entries_items(
                            self@,
                            parent@,
                            done,
                            depth as nat,
                        ) + group_items(self@, full_path@, depth as nat)));
                    } else {
                        let description = match self.group(full_path.as_str()) {
                            Some(group) => group.description.clone(),
                            None => None,
                        };
                        let item = ListItem::group(depth, full_path.as_str(), description);
                        output.push_item(item);
                        assert(output@.items =~= head + (entries_items(
                            self@,
                            parent@,
                            done,
                            depth as nat,
                        ) + seq![item@]));
                    }
                },
            }
            i += 1;
        }
        assert(all.subrange(0, i as int) =~= all);
    }

    /// Appends the item for the task at `full_path`.
    fn collect_task(&self, full_path: &str, depth: usize, output: &mut ListOutput)
        ensures
            final(output)@ == (ListOutputView {
                items: old(output)@.items + seq![
                    task_item(full_path@, depth as nat, task_description(self@, full_path@)),
                ],
                ..old(output)@
            }),
    {
        let description = match self.task(full_path) {
            Some(task) => task.description.clone(),
            None => None,
        };
        let ghost before = output@.items;
        let item = ListItem::task(depth, full_path, description);
        output.push_item(item);
        assert(before.push(item@) =~= before + seq![item@]);
    }

    /// Appends the items for the group at `full_path`: see `group_items`.
    fn collect_group(&self, full_path: &str, depth: usize, output: &mut ListOutput)
        requires
            depth < full_path@.len(),
            depth < usize::MAX,
        ensures
            final(output)@ == (ListOutputView {
                items: old(output)@.items + group_items(self@, full_path@, depth as nat),
                ..old(output)@
            }),
        decreases longest(self@.group_paths()) - full_path@.len(), 1nat, 0nat,
    {
        let ghost before = output@.items;
        match self.group(full_path) {
            Some(group) => {
                let item = ListItem::group(depth, full_path, group.description.clone());
                output.push_item(item);
                self.collect_entries(full_path, &group.entries, depth + 1, output);
                assert(output@.items =~= before + (seq![item@] + entries_items(
                    self@,
                    full_path@,
                    group@.entries,
                    (depth + 1) as nat,
                )));
            },
            None => {
                let item = ListItem::group(depth, full_path, None);
                output.push_item(item);
                assert(before.push(item@) =~= before + seq![item@]);
            },
        }
    }
}

} // verus!
