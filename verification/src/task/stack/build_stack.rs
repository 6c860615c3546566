//! The build stack: the scopes that are open while a script is evaluated,
//! and the transitions that open, fill and close them.

use vstd::prelude::*;
use rhai::FnPtr;
use crate::error::{TaskError, TaskErrorView};
use crate::task::builder::{GroupBuilder, TaskBuilder};
use crate::task::model::{GroupView, RegistryEntry, RegistryEntryView, TaskView};
use crate::task::registry::{RegistryView, TaskRegistry};
use crate::task::stack::parameters::{sort_parameters, sorted_parameters};
use crate::text::{concat, same_text, trim, trimmed};

verus! {

/// One open scope.
#[derive(Debug)]
pub enum ContextFrame {
    /// The script itself, outside any task or group.
    Root,
    /// An open `group()`.
    Group(GroupBuilder),
    /// An open `task()`.
    Task(TaskBuilder),
}

/// What a `ContextFrame` holds, as plain text.
pub enum FrameView {
    Root,
    Group { full_path: Seq<char>, group: GroupView },
    Task { full_path: Seq<char>, task: TaskView },
}

impl View for ContextFrame {
    type V = FrameView;

    open spec fn view(&self) -> FrameView {
        match self {
            ContextFrame::Root => FrameView::Root,
            ContextFrame::Group(builder) => FrameView::Group {
                full_path: builder@.full_path,
                group: builder@.group,
            },
            ContextFrame::Task(builder) => FrameView::Task {
                full_path: builder@.full_path,
                task: builder@.task,
            },
        }
    }
}

impl DeepView for ContextFrame {
    type V = FrameView;

    open spec fn deep_view(&self) -> FrameView {
        self@
    }
}

/// The scopes that are open, outermost first, and the directory of the
/// script being evaluated.
pub struct BuildStack {
    context_stack: Vec<ContextFrame>,
    script_root: Option<String>,
}

/// What a `BuildStack` holds, as plain text.
pub struct BuildStackView {
    /// The open scopes, outermost first.
    pub frames: Seq<FrameView>,
    /// The directory of the script, once it is known.
    pub script_root: Option<Seq<char>>,
}

/// Whether `frames` is a stack that the transitions can produce: the root
/// is at the bottom and nowhere else, and nothing is open inside a task.
pub open spec fn well_stacked(frames: Seq<FrameView>) -> bool {
    &&& forall|i: int| 0 <= i < frames.len() ==> (#[trigger] frames[i] is Root <==> i == 0)
    &&& forall|i: int| 0 <= i < frames.len() - 1 ==> !(#[trigger] frames[i] is Task)
}

/// The full path of a scope named `name` that is opened inside `parent`.
/// Nothing can be opened inside a task.
pub open spec fn child_path(parent: FrameView, name: Seq<char>) -> Result<Seq<char>, TaskErrorView> {
    match parent {
        FrameView::Root => Ok(name),
        FrameView::Group { full_path, .. } => Ok(full_path + seq!['.'] + name),
        FrameView::Task { .. } => Err(TaskErrorView::NestedTask),
    }
}

/// Whether a task with full path `path` is among the open scopes.
pub open spec fn task_is_open(frames: Seq<FrameView>, path: Seq<char>) -> bool {
    exists|i: int|
        0 <= i < frames.len() && (#[trigger] frames[i] matches FrameView::Task { full_path, .. }
            && full_path == path)
}

/// Whether a group with full path `path` is among the open scopes.
pub open spec fn group_is_open(frames: Seq<FrameView>, path: Seq<char>) -> bool {
    exists|i: int|
        0 <= i < frames.len() && (#[trigger] frames[i] matches FrameView::Group { full_path, .. }
            && full_path == path)
}

/// Why a task cannot take the full path `path`, if it cannot: a task with
/// that path is finished or open, or else a group is.
pub open spec fn task_path_conflict(
    frames: Seq<FrameView>,
    registry: RegistryView,
    path: Seq<char>,
) -> Option<TaskErrorView> {
    if registry.contains_task(path) || task_is_open(frames, path) {
        Some(TaskErrorView::TaskAlreadyDefined(path))
    } else if registry.contains_group(path) || group_is_open(frames, path) {
        Some(TaskErrorView::TaskDefinedAsGroup(path))
    } else {
        None
    }
}

/// Why a group cannot take the full path `path`, if it cannot: a group with
/// that path is finished or open, or else a task is.
pub open spec fn group_path_conflict(
    frames: Seq<FrameView>,
    registry: RegistryView,
    path: Seq<char>,
) -> Option<TaskErrorView> {
    if registry.contains_group(path) || group_is_open(frames, path) {
        Some(TaskErrorView::GroupAlreadyDefined(path))
    } else if registry.contains_task(path) || task_is_open(frames, path) {
        Some(TaskErrorView::GroupDefinedAsTask(path))
    } else {
        None
    }
}

/// The frame that opening a task named `name` pushes, or the error that
/// rejects it. The name is trimmed and must not be blank; the innermost open
/// scope must not be a task; the full path must be free.
pub open spec fn task_to_open(
    frames: Seq<FrameView>,
    registry: RegistryView,
    name: Seq<char>,
) -> Result<FrameView, TaskErrorView>
    recommends
        frames.len() > 0,
{
    if trimmed(name).len() == 0 {
        Err(TaskErrorView::EmptyTaskName)
    } else {
        match child_path(frames.last(), trimmed(name)) {
            Err(error) => Err(error),
            Ok(path) => match task_path_conflict(frames, registry, path) {
                Some(error) => Err(error),
                None => Ok(FrameView::Task { full_path: path, task: TaskView::empty() }),
            },
        }
    }
}

/// The frame that opening a group named `name` pushes, or the error that
/// rejects it. The name is trimmed and must not be blank; the innermost open
/// scope must not be a task; the full path must be free.
pub open spec fn group_to_open(
    frames: Seq<FrameView>,
    registry: RegistryView,
    name: Seq<char>,
) -> Result<FrameView, TaskErrorView>
    recommends
        frames.len() > 0,
{
    if trimmed(name).len() == 0 {
        Err(TaskErrorView::EmptyGroupName)
    } else {
        match child_path(frames.last(), trimmed(name)) {
            Err(error) => Err(error),
            Ok(path) => match group_path_conflict(frames, registry, path) {
                Some(error) => Err(error),
                None => Ok(FrameView::Group { full_path: path, group: GroupView::empty() }),
            },
        }
    }
}

/// The open scopes and the registry after `entry`, which refers to a scope
/// just closed, was recorded in the scope that encloses it: the root-level
/// order of the registry for the root, the entries of the group for a group.
pub open spec fn attached(
    frames: Seq<FrameView>,
    registry: RegistryView,
    entry: RegistryEntryView,
) -> (Seq<FrameView>, RegistryView)
    recommends
        frames.len() > 0,
{
    match frames.last() {
        FrameView::Group { full_path, group } => (
            frames.drop_last().push(
                FrameView::Group {
                    full_path,
                    group: GroupView { entries: group.entries.push(entry), ..group },
                },
            ),
            registry,
        ),
        _ => (frames, registry.with_root_entry(entry)),
    }
}

/// What closing a task does. The innermost scope is popped. If it was a
/// task, the task is stored in the registry under its full path and
/// recorded in the enclosing scope; if not, the call fails and says what
/// was open instead.
pub open spec fn task_closed(frames: Seq<FrameView>, registry: RegistryView) -> Result<
    (Seq<FrameView>, RegistryView),
    TaskErrorView,
>
    recommends
        frames.len() > 0,
{
    match frames.last() {
        FrameView::Task { full_path, task } => Ok(
            attached(
                frames.drop_last(),
                registry.with_task(full_path, task),
                RegistryEntryView::Task(full_path),
            ),
        ),
        FrameView::Group { .. } => Err(TaskErrorView::EndTaskInsideGroup),
        FrameView::Root => Err(TaskErrorView::EndTaskWithoutTask),
    }
}

/// What closing a group does. The innermost scope is popped. If it was a
/// group, the group is stored in the registry under its full path and
/// recorded in the enclosing scope; if not, the call fails and says what
/// was open instead.
pub open spec fn group_closed(frames: Seq<FrameView>, registry: RegistryView) -> Result<
    (Seq<FrameView>, RegistryView),
    TaskErrorView,
>
    recommends
        frames.len() > 0,
{
    match frames.last() {
        FrameView::Group { full_path, group } => Ok(
            attached(
                frames.drop_last(),
                registry.with_group(full_path, group),
                RegistryEntryView::Group(full_path),
            ),
        ),
        FrameView::Task { .. } => Err(TaskErrorView::EndGroupInsideTask),
        FrameView::Root => Err(TaskErrorView::EndGroupWithoutGroup),
    }
}

/// `frames` with the innermost scope replaced by `frame`.
pub open spec fn with_top(frames: Seq<FrameView>, frame: FrameView) -> Seq<FrameView>
    recommends
        frames.len() > 0,
{
    frames.drop_last().push(frame)
}

/// The open scopes after the description of the innermost one was set to
/// `desc`. The root takes no description.
pub open spec fn described(frames: Seq<FrameView>, desc: Seq<char>) -> Result<
    Seq<FrameView>,
    TaskErrorView,
>
    recommends
        frames.len() > 0,
{
    match frames.last() {
        FrameView::Task { full_path, task } => Ok(
            with_top(
                frames,
                FrameView::Task { full_path, task: TaskView { description: Some(desc), ..task } },
            ),
        ),
        FrameView::Group { full_path, group } => Ok(
            with_top(
                frames,
                FrameView::Group {
                    full_path,
                    group: GroupView { description: Some(desc), ..group },
                },
            ),
        ),
        FrameView::Root => Err(TaskErrorView::DescriptionOutsideScope),
    }
}

/// The open scopes after the action of the innermost one was set to
/// `func`. Only a task takes an action.
pub open spec fn with_actions(frames: Seq<FrameView>, func: FnPtr) -> Result<
    Seq<FrameView>,
    TaskErrorView,
>
    recommends
        frames.len() > 0,
{
    match frames.last() {
        FrameView::Task { full_path, task } => Ok(
            with_top(
                frames,
                FrameView::Task { full_path, task: TaskView { actions: Some(func), ..task } },
            ),
        ),
        _ => Err(TaskErrorView::ActionsOutsideTask),
    }
}

/// The open scopes after the innermost one declared the parameters
/// `pairs`, each a name with its default: they are kept sorted by name and
/// replace what was declared before. Only a task takes parameters.
pub open spec fn with_args(
    frames: Seq<FrameView>,
    pairs: Seq<(Seq<char>, Option<Seq<char>>)>,
) -> Result<Seq<FrameView>, TaskErrorView>
    recommends
        frames.len() > 0,
{
    match frames.last() {
        FrameView::Task { full_path, task } => Ok(
            with_top(
                frames,
                FrameView::Task {
                    full_path,
                    task: TaskView { params: sorted_parameters(pairs), ..task },
                },
            ),
        ),
        _ => Err(TaskErrorView::ArgsOutsideTask),
    }
}

/// What the file system said of the directory that a task asks for.
#[derive(Debug)]
pub enum DirectoryProbe {
    /// The path could not be resolved: the path tried and the reason.
    Unresolved { candidate: String, reason: String },
    /// The resolved path could not be inspected: the path and the reason.
    Uninspected { resolved: String, reason: String },
    /// The path resolves to something that is no directory.
    NotADirectory { resolved: String },
    /// The path resolves to this directory.
    Directory { resolved: String },
}

/// What a `DirectoryProbe` holds, as plain text.
pub enum DirectoryProbeView {
    Unresolved { candidate: Seq<char>, reason: Seq<char> },
    Uninspected { resolved: Seq<char>, reason: Seq<char> },
    NotADirectory { resolved: Seq<char> },
    Directory { resolved: Seq<char> },
}

impl View for DirectoryProbe {
    type V = DirectoryProbeView;

    open spec fn view(&self) -> DirectoryProbeView {
        match self {
            DirectoryProbe::Unresolved { candidate, reason } => DirectoryProbeView::Unresolved {
                candidate: candidate@,
                reason: reason@,
            },
            DirectoryProbe::Uninspected { resolved, reason } => DirectoryProbeView::Uninspected {
                resolved: resolved@,
                reason: reason@,
            },
            DirectoryProbe::NotADirectory { resolved } => DirectoryProbeView::NotADirectory {
                resolved: resolved@,
            },
            DirectoryProbe::Directory { resolved } => DirectoryProbeView::Directory {
                resolved: resolved@,
            },
        }
    }
}

/// Where the directory that a task asks for is to be looked up.
#[derive(Debug)]
pub struct DirectoryRequest {
    /// The directory that `path` is relative to; `None` for an absolute
    /// path.
    pub base: Option<String>,
    /// The path asked for, trimmed.
    pub path: String,
}

/// What a `DirectoryRequest` holds, as plain text.
pub struct DirectoryRequestView {
    pub base: Option<Seq<char>>,
    pub path: Seq<char>,
}

impl View for DirectoryRequest {
    type V = DirectoryRequestView;

    open spec fn view(&self) -> DirectoryRequestView {
        DirectoryRequestView { base: self.base.deep_view(), path: self.path@ }
    }
}

/// Where the directory `path` is to be looked up, or why the innermost
/// scope cannot take a directory. Only a task takes one, and only once; the
/// path is trimmed and must not be blank; a relative path needs the script
/// root.
pub open spec fn directory_requested(
    stack: BuildStackView,
    path: Seq<char>,
    is_absolute: bool,
) -> Result<DirectoryRequestView, TaskErrorView>
    recommends
        stack.frames.len() > 0,
{
    match stack.frames.last() {
        FrameView::Task { task, .. } => if task.working_dir is Some {
            Err(TaskErrorView::DirectoryAlreadyDefined)
        } else if trimmed(path).len() == 0 {
            Err(TaskErrorView::DirectoryPathMissing)
        } else if is_absolute {
            Ok(DirectoryRequestView { base: None, path: trimmed(path) })
        } else if stack.script_root is None {
            Err(TaskErrorView::DirectoryRootUnknown)
        } else {
            Ok(DirectoryRequestView { base: stack.script_root, path: trimmed(path) })
        },
        _ => Err(TaskErrorView::DirectoryOutsideTask),
    }
}

/// The directory that a probe found, or the error that it amounts to.
pub open spec fn directory_found(probe: DirectoryProbeView) -> Result<Seq<char>, TaskErrorView> {
    match probe {
        DirectoryProbeView::Unresolved { candidate, reason } => Err(
            TaskErrorView::DirectoryUnresolved { path: candidate, reason },
        ),
        DirectoryProbeView::Uninspected { resolved, reason } => Err(
            TaskErrorView::DirectoryUninspected { path: resolved, reason },
        ),
        DirectoryProbeView::NotADirectory { resolved } => Err(
            TaskErrorView::NotADirectory(resolved),
        ),
        DirectoryProbeView::Directory { resolved } => Ok(resolved),
    }
}

/// The open scopes after the innermost one took the directory `path`,
/// which the file system answered for with `probe`: the request is checked
/// first, then the probe; the task keeps the directory that was found.
pub open spec fn with_directory(
    stack: BuildStackView,
    path: Seq<char>,
    is_absolute: bool,
    probe: DirectoryProbeView,
) -> Result<Seq<FrameView>, TaskErrorView>
    recommends
        stack.frames.len() > 0,
{
    match directory_requested(stack, path, is_absolute) {
        Err(error) => Err(error),
        Ok(_) => match directory_found(probe) {
            Err(error) => Err(error),
            Ok(resolved) => match stack.frames.last() {
                FrameView::Task { full_path, task } => Ok(
                    with_top(
                        stack.frames,
                        FrameView::Task {
                            full_path,
                            task: TaskView { working_dir: Some(resolved), ..task },
                        },
                    ),
                ),
                _ => Ok(stack.frames),
            },
        },
    }
}

/// Replacing the innermost scope by one of its kind keeps the stack well
/// stacked.
pub proof fn lemma_with_top(frames: Seq<FrameView>, frame: FrameView)
    requires
        well_stacked(frames),
        frames.len() > 0,
        frame is Root <==> frames.last() is Root,
    ensures
        well_stacked(with_top(frames, frame)),
        with_top(frames, frame) == frames.update(frames.len() - 1, frame),
{
    let out = with_top(frames, frame);
    assert(out =~= frames.update(frames.len() - 1, frame));
    assert forall|i: int| 0 <= i < out.len() implies (#[trigger] out[i] is Root <==> i == 0) by {
        if i < out.len() - 1 {
            assert(out[i] == frames[i]);
        } else {
            assert(frames[i] == frames.last());
        }
    }
    assert forall|i: int| 0 <= i < out.len() - 1 implies !(#[trigger] out[i] is Task) by {
        assert(out[i] == frames[i]);
    }
}

/// Popping the innermost scope keeps the stack well stacked.
pub proof fn lemma_popped(frames: Seq<FrameView>)
    requires
        well_stacked(frames),
        frames.len() > 0,
    ensures
        well_stacked(frames.drop_last()),
        frames.len() > 1 ==> !(frames.drop_last().last() is Task),
{
    let out = frames.drop_last();
    assert forall|i: int| 0 <= i < out.len() implies (#[trigger] out[i] is Root <==> i == 0) by {
        assert(out[i] == frames[i]);
    }
    assert forall|i: int| 0 <= i < out.len() - 1 implies !(#[trigger] out[i] is Task) by {
        assert(out[i] == frames[i]);
    }
    if frames.len() > 1 {
        assert(out.last() == frames[frames.len() - 2]);
    }
}

/// Pushing a task or a group onto a stack whose innermost scope is no task
/// keeps the stack well stacked.
pub proof fn lemma_pushed(frames: Seq<FrameView>, frame: FrameView)
    requires
        well_stacked(frames),
        frames.len() > 0,
        !(frames.last() is Task),
        !(frame is Root),
    ensures
        well_stacked(frames.push(frame)),
{
    let out = frames.push(frame);
    assert forall|i: int| 0 <= i < out.len() implies (#[trigger] out[i] is Root <==> i == 0) by {
        if i < frames.len() {
            assert(out[i] == frames[i]);
        }
    }
    assert forall|i: int| 0 <= i < out.len() - 1 implies !(#[trigger] out[i] is Task) by {
        assert(out[i] == frames[i]);
        if i == frames.len() - 1 {
            assert(frames[i] == frames.last());
        }
    }
}

impl View for BuildStack {
    type V = BuildStackView;

    closed spec fn view(&self) -> BuildStackView {
        BuildStackView {
            frames: self.context_stack.deep_view(),
            script_root: self.script_root.deep_view(),
        }
    }
}

impl BuildStack {
    /// Whether the open scopes are stacked as the transitions stack them.
    /// `new` and `reset` establish this and every transition keeps it.
    pub open spec fn wf(&self) -> bool {
        well_stacked(self@.frames)
    }

    /// A stack with nothing but the root open and no script root.
    pub fn new() -> (stack: Self)
        ensures
            stack.wf(),
            stack@ == (BuildStackView { frames: seq![FrameView::Root], script_root: None }),
    {
        let mut context_stack: Vec<ContextFrame> = Vec::new();
        context_stack.push(ContextFrame::Root);
        assert(context_stack.deep_view() =~= seq![FrameView::Root]);
        BuildStack { context_stack, script_root: None }
    }

    /// How many scopes are open, the root included.
    pub fn depth(&self) -> (depth: usize)
        ensures
            depth == self@.frames.len(),
    {
        self.context_stack.len()
    }

    /// Opens a task named `name` inside the innermost open scope: see
    /// `task_to_open`. On failure nothing changes.
    pub fn begin_task(&mut self, registry: &TaskRegistry, name: &str) -> (result: Result<
        (),
        TaskError,
    >)
        requires
            old(self).wf(),
            old(self)@.frames.len() > 0,
        ensures
            final(self).wf(),
            final(self)@.script_root == old(self)@.script_root,
            match result {
                Ok(()) => task_to_open(old(self)@.frames, registry@, name@) matches Ok(frame)
                    && final(self)@.frames == old(self)@.frames.push(frame),
                Err(error) => task_to_open(old(self)@.frames, registry@, name@) == Err::<
                    FrameView,
                    TaskErrorView,
                >(error@) && final(self)@.frames == old(self)@.frames,
            },
    {
        let name = trim(name);
        if name.unicode_len() == 0 {
            return Err(TaskError::EmptyTaskName);
        }
        let full_path = match self.build_child_path(name) {
            Ok(path) => path,
            Err(error) => {
                return Err(error);
            },
        };
        match self.ensure_task_name_available(registry, full_path.as_str()) {
            Ok(()) => {},
            Err(error) => {
                return Err(error);
            },
        }
        let ghost before = self.context_stack.deep_view();
        let frame = ContextFrame::Task(TaskBuilder::new(full_path));
        self.context_stack.push(frame);
        proof {
            assert(self.context_stack.deep_view() =~= before.push(frame@));
            lemma_pushed(before, frame@);
        }
        Ok(())
    }

    /// The full path of a scope named `name` opened inside the innermost
    /// open scope.
    fn build_child_path(&self, name: &str) -> (result: Result<String, TaskError>)
        requires
            self@.frames.len() > 0,
        ensures
            match result {
                Ok(path) => child_path(self@.frames.last(), name@) == Ok::<
                    Seq<char>,
                    TaskErrorView,
                >(path@),
                Err(error) => child_path(self@.frames.last(), name@) == Err::<
                    Seq<char>,
                    TaskErrorView,
                >(error@),
            },
    {
        let top = &self.context_stack[self.context_stack.len() - 1];
        match top {
            ContextFrame::Root => Ok(name.to_owned()),
            ContextFrame::Group(builder) => {
                let prefix = concat(builder.full_path().as_str(), ".");
                proof {
                    reveal_strlit(".");
                    assert("."@ =~= seq!['.']);
                }
                Ok(concat(prefix.as_str(), name))
            },
            ContextFrame::Task(_) => Err(TaskError::NestedTask),
        }
    }

    /// Tells whether a task with full path `path` is among the open scopes.
    fn has_open_task(&self, path: &str) -> (found: bool)
        ensures
            found == task_is_open(self@.frames, path@),
    {
        let mut i: usize = 0;
        while i < self.context_stack.len()
            invariant
                i <= self.context_stack.len(),
                forall|j: int|
                    0 <= j < i ==> !(#[trigger] self@.frames[j] matches FrameView::Task {
                        full_path,
                        ..
                    } && full_path == path@),
            decreases self.context_stack.len() - i,
        {
            match &self.context_stack[i] {
                ContextFrame::Task(builder) => {
                    if same_text(builder.full_path().as_str(), path) {
                        assert(self@.frames[i as int] matches FrameView::Task { full_path, .. }
                            && full_path == path@);
                        return true;
                    }
                },
                _ => {},
            }
            i += 1;
        }
        false
    }

    /// Tells whether a group with full path `path` is among the open scopes.
    fn has_open_group(&self, path: &str) -> (found: bool)
        ensures
            found == group_is_open(self@.frames, path@),
    {
        let mut i: usize = 0;
        while i < self.context_stack.len()
            invariant
                i <= self.context_stack.len(),
                forall|j: int|
                    0 <= j < i ==> !(#[trigger] self@.frames[j] matches FrameView::Group {
                        full_path,
                        ..
                    } && full_path == path@),
            decreases self.context_stack.len() - i,
        {
            match &self.context_stack[i] {
                ContextFrame::Group(builder) => {
                    if same_text(builder.full_path().as_str(), path) {
                        assert(self@.frames[i as int] matches FrameView::Group { full_path, .. }
                            && full_path == path@);
                        return true;
                    }
                },
                _ => {},
            }
            i += 1;
        }
        false
    }

    /// Checks that a task may take the full path `full_path`.
    fn ensure_task_name_available(&self, registry: &TaskRegistry, full_path: &str) -> (result:
        Result<(), TaskError>)
        ensures
            match result {
                Ok(()) => task_path_conflict(self@.frames, registry@, full_path@) is None,
                Err(error) => task_path_conflict(self@.frames, registry@, full_path@) == Some(
                    error@,
                ),
            },
    {
        if registry.contains_task(full_path) || self.has_open_task(full_path) {
            Err(TaskError::TaskAlreadyDefined(full_path.to_owned()))
        } else if registry.contains_group(full_path) || self.has_open_group(full_path) {
            Err(TaskError::TaskDefinedAsGroup(full_path.to_owned()))
        } else {
            Ok(())
        }
    }

    /// Checks that a group may take the full path `full_path`.
    fn ensure_group_name_available(&self, registry: &TaskRegistry, full_path: &str) -> (result:
        Result<(), TaskError>)
        ensures
            match result {
                Ok(()) => group_path_conflict(self@.frames, registry@, full_path@) is None,
                Err(error) => group_path_conflict(self@.frames, registry@, full_path@) == Some(
                    error@,
                ),
            },
    {
        if registry.contains_group(full_path) || self.has_open_group(full_path) {
            Err(TaskError::GroupAlreadyDefined(full_path.to_owned()))
        } else if registry.contains_task(full_path) || self.has_open_task(full_path) {
            Err(TaskError::GroupDefinedAsTask(full_path.to_owned()))
        } else {
            Ok(())
        }
    }


    /// Sets the description of the innermost open scope: see `described`.
    /// On failure nothing changes.
    pub fn set_description(&mut self, desc: &str) -> (result: Result<(), TaskError>)
        requires
            old(self).wf(),
            old(self)@.frames.len() > 0,
        ensures
            final(self).wf(),
            final(self)@.script_root == old(self)@.script_root,
            match result {
                Ok(()) => described(old(self)@.frames, desc@) == Ok::<
                    Seq<FrameView>,
                    TaskErrorView,
                >(final(self)@.frames),
                Err(error) => described(old(self)@.frames, desc@) == Err::<
                    Seq<FrameView>,
                    TaskErrorView,
                >(error@) && final(self)@.frames == old(self)@.frames,
            },
    {
        let ghost before = self.context_stack.deep_view();
        let ghost held = self.context_stack@;
        assert(before.last() == held.last()@);
        let result = match self.context_stack.last_mut() {
            Some(ContextFrame::Task(builder)) => {
                builder.set_description(desc);
                Ok(())
            },
            Some(ContextFrame::Group(builder)) => {
                builder.set_description(desc);
                Ok(())
            },
            _ => Err(TaskError::DescriptionOutsideScope),
        };
        proof {
            if result is Ok {
                let frame = self.context_stack@.last()@;
                assert(self.context_stack@ == held.update(held.len() - 1, self.context_stack@.last()));
                lemma_with_top(before, frame);
                assert(self.context_stack.deep_view() =~= with_top(before, frame));
            } else {
                assert(self.context_stack.deep_view() =~= before);
            }
        }
        result
    }

    /// Sets the action of the innermost open scope: see `with_actions`. On
    /// failure nothing changes.
    pub fn set_actions(&mut self, func: FnPtr) -> (result: Result<(), TaskError>)
        requires
            old(self).wf(),
            old(self)@.frames.len() > 0,
        ensures
            final(self).wf(),
            final(self)@.script_root == old(self)@.script_root,
            match result {
                Ok(()) => with_actions(old(self)@.frames, func) == Ok::<
                    Seq<FrameView>,
                    TaskErrorView,
                >(final(self)@.frames),
                Err(error) => with_actions(old(self)@.frames, func) == Err::<
                    Seq<FrameView>,
                    TaskErrorView,
                >(error@) && final(self)@.frames == old(self)@.frames,
            },
    {
        let ghost before = self.context_stack.deep_view();
        let ghost held = self.context_stack@;
        assert(before.last() == held.last()@);
        let result = match self.context_stack.last_mut() {
            Some(ContextFrame::Task(builder)) => {
                builder.set_actions(func);
                Ok(())
            },
            _ => Err(TaskError::ActionsOutsideTask),
        };
        proof {
            if result is Ok {
                let frame = self.context_stack@.last()@;
                assert(self.context_stack@ == held.update(held.len() - 1, self.context_stack@.last()));
                lemma_with_top(before, frame);
                assert(self.context_stack.deep_view() =~= with_top(before, frame));
            } else {
                assert(self.context_stack.deep_view() =~= before);
            }
        }
        result
    }

    /// Declares the parameters of the innermost open scope, each a name
    /// with its default: see `with_args`. On failure nothing changes.
    pub fn set_args(&mut self, params: Vec<(String, Option<String>)>) -> (result: Result<
        (),
        TaskError,
    >)
        requires
            old(self).wf(),
            old(self)@.frames.len() > 0,
        ensures
            final(self).wf(),
            final(self)@.script_root == old(self)@.script_root,
            match result {
                Ok(()) => with_args(old(self)@.frames, params.deep_view()) == Ok::<
                    Seq<FrameView>,
                    TaskErrorView,
                >(final(self)@.frames),
                Err(error) => with_args(old(self)@.frames, params.deep_view()) == Err::<
                    Seq<FrameView>,
                    TaskErrorView,
                >(error@) && final(self)@.frames == old(self)@.frames,
            },
    {
        let ghost before = self.context_stack.deep_view();
        let ghost held = self.context_stack@;
        assert(before.last() == held.last()@);
        let result = match self.context_stack.last_mut() {
            Some(ContextFrame::Task(builder)) => {
                builder.set_params(sort_parameters(params));
                Ok(())
            },
            _ => Err(TaskError::ArgsOutsideTask),
        };
        proof {
            if result is Ok {
                let frame = self.context_stack@.last()@;
                assert(self.context_stack@ == held.update(held.len() - 1, self.context_stack@.last()));
                lemma_with_top(before, frame);
                assert(self.context_stack.deep_view() =~= with_top(before, frame));
            } else {
                assert(self.context_stack.deep_view() =~= before);
            }
        }
        result
    }

    /// Records the directory of the script that is about to be evaluated.
    pub fn set_script_root(&mut self, root: String)
        ensures
            final(self).wf() == old(self).wf(),
            final(self)@ == (BuildStackView { script_root: Some(root@), ..old(self)@ }),
    {
        self.script_root = Some(root);
    }

    /// The directory of the script, once it is known.
    pub fn script_root(&self) -> (root: Option<&String>)
        ensures
            root.deep_view() == self@.script_root,
    {
        self.script_root.as_ref()
    }

    /// Closes every open scope and forgets the script root.
    pub fn reset(&mut self)
        ensures
            final(self).wf(),
            final(self)@ == (BuildStackView { frames: seq![FrameView::Root], script_root: None }),
    {
        self.context_stack.clear();
        self.context_stack.push(ContextFrame::Root);
        self.script_root = None;
        assert(self.context_stack.deep_view() =~= seq![FrameView::Root]);
    }

    /// Opens a group named `name` inside the innermost open scope: see
    /// `group_to_open`. On failure nothing changes.
    pub fn begin_group(&mut self, registry: &TaskRegistry, name: &str) -> (result: Result<
        (),
        TaskError,
    >)
        requires
            old(self).wf(),
            old(self)@.frames.len() > 0,
        ensures
            final(self).wf(),
            final(self)@.script_root == old(self)@.script_root,
            match result {
                Ok(()) => group_to_open(old(self)@.frames, registry@, name@) matches Ok(frame)
                    && final(self)@.frames == old(self)@.frames.push(frame),
                Err(error) => group_to_open(old(self)@.frames, registry@, name@) == Err::<
                    FrameView,
                    TaskErrorView,
                >(error@) && final(self)@.frames == old(self)@.frames,
            },
    {
        let name = trim(name);
        if name.unicode_len() == 0 {
            return Err(TaskError::EmptyGroupName);
        }
        let full_path = match self.build_child_path(name) {
            Ok(path) => path,
            Err(error) => {
                return Err(error);
            },
        };
        match self.ensure_group_name_available(registry, full_path.as_str()) {
            Ok(()) => {},
            Err(error) => {
                return Err(error);
            },
        }
        let ghost before = self.context_stack.deep_view();
        let frame = ContextFrame::Group(GroupBuilder::new(full_path));
        self.context_stack.push(frame);
        proof {
            assert(self.context_stack.deep_view() =~= before.push(frame@));
            lemma_pushed(before, frame@);
        }
        Ok(())
    }

    /// Closes the innermost open scope as a task: see `task_closed`. On
    /// failure the scope is popped all the same and the registry is
    /// unchanged.
    pub fn end_task(&mut self, registry: &mut TaskRegistry) -> (result: Result<(), TaskError>)
        requires
            old(self).wf(),
            old(self)@.frames.len() > 0,
        ensures
            final(self).wf(),
            final(self)@.script_root == old(self)@.script_root,
            match result {
                Ok(()) => task_closed(old(self)@.frames, old(registry)@) == Ok::<
                    (Seq<FrameView>, RegistryView),
                    TaskErrorView,
                >((final(self)@.frames, final(registry)@)),
                Err(error) => task_closed(old(self)@.frames, old(registry)@) == Err::<
                    (Seq<FrameView>, RegistryView),
                    TaskErrorView,
                >(error@) && final(self)@.frames == old(self)@.frames.drop_last()
                    && final(registry)@ == old(registry)@,
            },
    {
        let ghost before = self.context_stack.deep_view();
        let popped = self.context_stack.pop();
        proof {
            assert(self.context_stack.deep_view() =~= before.drop_last());
            lemma_popped(before);
        }
        match popped {
            Some(ContextFrame::Task(builder)) => {
                let (full_path, task) = builder.build();
                registry.insert_task_entry(full_path.clone(), task);
                self.attach_entry_to_parent(registry, RegistryEntry::Task(full_path));
                Ok(())
            },
            Some(ContextFrame::Group(_)) => Err(TaskError::EndTaskInsideGroup),
            _ => Err(TaskError::EndTaskWithoutTask),
        }
    }

    /// Closes the innermost open scope as a group: see `group_closed`. On
    /// failure the scope is popped all the same and the registry is
    /// unchanged.
    pub fn end_group(&mut self, registry: &mut TaskRegistry) -> (result: Result<(), TaskError>)
        requires
            old(self).wf(),
            old(self)@.frames.len() > 0,
        ensures
            final(self).wf(),
            final(self)@.script_root == old(self)@.script_root,
            match result {
                Ok(()) => group_closed(old(self)@.frames, old(registry)@) == Ok::<
                    (Seq<FrameView>, RegistryView),
                    TaskErrorView,
                >((final(self)@.frames, final(registry)@)),
                Err(error) => group_closed(old(self)@.frames, old(registry)@) == Err::<
                    (Seq<FrameView>, RegistryView),
                    TaskErrorView,
                >(error@) && final(self)@.frames == old(self)@.frames.drop_last()
                    && final(registry)@ == old(registry)@,
            },
    {
        let ghost before = self.context_stack.deep_view();
        let popped = self.context_stack.pop();
        proof {
            assert(self.context_stack.deep_view() =~= before.drop_last());
            lemma_popped(before);
        }
        match popped {
            Some(ContextFrame::Group(builder)) => {
                let (full_path, group) = builder.build();
                registry.insert_group_entry(full_path.clone(), group);
                self.attach_entry_to_parent(registry, RegistryEntry::Group(full_path));
                Ok(())
            },
            Some(ContextFrame::Task(_)) => Err(TaskError::EndGroupInsideTask),
            _ => Err(TaskError::EndGroupWithoutGroup),
        }
    }

    /// Records `entry` in the innermost open scope: see `attached`.
    fn attach_entry_to_parent(&mut self, registry: &mut TaskRegistry, entry: RegistryEntry)
        requires
            old(self).wf(),
            old(self)@.frames.len() > 0,
            !(old(self)@.frames.last() is Task),
        ensures
            final(self).wf(),
            final(self)@.script_root == old(self)@.script_root,
            (final(self)@.frames, final(registry)@) == attached(
                old(self)@.frames,
                old(registry)@,
                entry@,
            ),
    {
        let ghost before = self.context_stack.deep_view();
        let ghost held = self.context_stack@;
        assert(before.last() == held.last()@);
        match self.context_stack.last_mut() {
            Some(ContextFrame::Group(builder)) => {
                builder.add_entry(entry);
                proof {
                    let frame = self.context_stack@.last()@;
                    assert(self.context_stack@ == held.update(
                        held.len() - 1,
                        self.context_stack@.last(),
                    ));
                    lemma_with_top(before, frame);
                    assert(self.context_stack.deep_view() =~= with_top(before, frame));
                }
            },
            _ => {
                assert(self.context_stack.deep_view() =~= before);
                registry.push_root_entry(entry);
            },
        }
    }

    /// Where the directory `path` is to be looked up for the innermost open
    /// scope, `is_absolute` telling whether the trimmed path is absolute:
    /// see `directory_requested`.
    pub fn directory_request(&self, path: &str, is_absolute: bool) -> (result: Result<
        DirectoryRequest,
        TaskError,
    >)
        requires
            self@.frames.len() > 0,
        ensures
            match result {
                Ok(request) => directory_requested(self@, path@, is_absolute) == Ok::<
                    DirectoryRequestView,
                    TaskErrorView,
                >(request@),
                Err(error) => directory_requested(self@, path@, is_absolute) == Err::<
                    DirectoryRequestView,
                    TaskErrorView,
                >(error@),
            },
    {
        match &self.context_stack[self.context_stack.len() - 1] {
            ContextFrame::Task(builder) => {
                if builder.has_working_dir() {
                    return Err(TaskError::DirectoryAlreadyDefined);
                }
            },
            _ => {
                return Err(TaskError::DirectoryOutsideTask);
            },
        }
        let path = trim(path);
        if path.unicode_len() == 0 {
            return Err(TaskError::DirectoryPathMissing);
        }
        if is_absolute {
            return Ok(DirectoryRequest { base: None, path: path.to_owned() });
        }
        match &self.script_root {
            Some(root) => Ok(DirectoryRequest { base: Some(root.clone()), path: path.to_owned() }),
            None => Err(TaskError::DirectoryRootUnknown),
        }
    }

    /// Gives the innermost open scope the directory `path`, for which the
    /// file system answered with `probe`: see `with_directory`. On failure
    /// nothing changes.
    pub fn set_directory(&mut self, path: &str, is_absolute: bool, probe: DirectoryProbe) -> (result:
        Result<(), TaskError>)
        requires
            old(self).wf(),
            old(self)@.frames.len() > 0,
        ensures
            final(self).wf(),
            final(self)@.script_root == old(self)@.script_root,
            match result {
                Ok(()) => with_directory(old(self)@, path@, is_absolute, probe@) == Ok::<
                    Seq<FrameView>,
                    TaskErrorView,
                >(final(self)@.frames),
                Err(error) => with_directory(old(self)@, path@, is_absolute, probe@) == Err::<
                    Seq<FrameView>,
                    TaskErrorView,
                >(error@) && final(self)@.frames == old(self)@.frames,
            },
    {
        match self.directory_request(path, is_absolute) {
            Ok(_) => {},
            Err(error) => {
                return Err(error);
            },
        }
        let resolved = match probe {
            DirectoryProbe::Unresolved { candidate, reason } => {
                return Err(TaskError::DirectoryUnresolved { path: candidate, reason });
            },
            DirectoryProbe::Uninspected { resolved, reason } => {
                return Err(TaskError::DirectoryUninspected { path: resolved, reason });
            },
            DirectoryProbe::NotADirectory { resolved } => {
                return Err(TaskError::NotADirectory(resolved));
            },
            DirectoryProbe::Directory { resolved } => resolved,
        };
        let ghost before = self.context_stack.deep_view();
        let ghost held = self.context_stack@;
        assert(before.last() == held.last()@);
        match self.context_stack.last_mut() {
            Some(ContextFrame::Task(builder)) => {
                builder.set_working_dir(resolved);
            },
            _ => {},
        }
        proof {
            let frame = self.context_stack@.last()@;
            assert(self.context_stack@ == held.update(held.len() - 1, self.context_stack@.last()));
            lemma_with_top(before, frame);
            assert(self.context_stack.deep_view() =~= with_top(before, frame));
        }
        Ok(())
    }
}

} // verus!
