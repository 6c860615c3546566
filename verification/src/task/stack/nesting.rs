//! How the scopes that a sequence of calls builds lie inside each other.
//!
//! Every scope is recorded in the scope around it when it is closed. This
//! module proves that what is recorded in a group lies under that group:
//! its full path is longer than the group's, and where it is a group itself
//! the registry holds it. A listing therefore opens every group that it
//! meets in a registry built by scope calls.

use vstd::prelude::*;
use crate::task::display::opens;
use crate::task::model::RegistryEntryView;
use crate::task::registry::RegistryView;
use crate::task::stack::build_stack::FrameView;
use crate::task::stack::scopes::{
    after_call, after_calls, frame_is, initial_state, lemma_calls_stay_on_track, lemma_new_name,
    open_scopes, tracks, uniquely_named, well_nested, BuildState, Scope, ScopeCall,
};

verus! {

/// Whether all of `entries` lie under `path`: each has a longer full path,
/// and each that is a group is stored in `registry`.
pub open spec fn lie_under(
    path: Seq<char>,
    registry: RegistryView,
    entries: Seq<RegistryEntryView>,
) -> bool {
    forall|j: int|
        0 <= j < entries.len() ==> {
            &&& (#[trigger] entries[j]).path().len() > path.len()
            &&& entries[j] is Group ==> registry.contains_group(entries[j].path())
        }
}

/// The length of the path of the scope around the `i`th open scope; 0 for
/// the outermost one, which lies in the root.
pub open spec fn outer_length(open: Seq<Scope>, i: int) -> nat {
    if i <= 0 {
        0
    } else {
        open[i - 1].path().len()
    }
}

/// What holds of the nesting in a state that `calls` led to.
pub open spec fn nests(state: BuildState, calls: Seq<ScopeCall>) -> bool {
    let open = open_scopes(calls);
    &&& forall|i: int|
        0 <= i < state.frames.len() ==> (#[trigger] state.frames[i] matches FrameView::Group {
            full_path,
            group,
        } ==> lie_under(full_path, state.registry, group.entries))
    &&& forall|i: int|
        0 <= i < state.registry.groups.len() ==> lie_under(
            (#[trigger] state.registry.groups[i]).0,
            state.registry,
            state.registry.groups[i].1.entries,
        )
    &&& lie_under(Seq::empty(), state.registry, state.registry.root_entries)
    &&& forall|i: int|
        0 <= i < open.len() ==> (#[trigger] open[i]).path().len() > outer_length(open, i)
}

/// What lies under a path with one registry does so with any registry that
/// holds the same groups and more.
proof fn lemma_lie_under_more(
    path: Seq<char>,
    before: RegistryView,
    after: RegistryView,
    entries: Seq<RegistryEntryView>,
)
    requires
        lie_under(path, before, entries),
        forall|known: Seq<char>| #[trigger]
            before.contains_group(known) ==> after.contains_group(known),
    ensures
        lie_under(path, after, entries),
{
    assert forall|j: int| 0 <= j < entries.len() implies {
        &&& (#[trigger] entries[j]).path().len() > path.len()
        &&& entries[j] is Group ==> after.contains_group(entries[j].path())
    } by {
        if entries[j] is Group {
            assert(before.contains_group(entries[j].path()));
        }
    }
}

/// One more entry that lies under a path joins those that do.
proof fn lemma_lie_under_push(
    path: Seq<char>,
    registry: RegistryView,
    entries: Seq<RegistryEntryView>,
    entry: RegistryEntryView,
)
    requires
        lie_under(path, registry, entries),
        entry.path().len() > path.len(),
        entry is Group ==> registry.contains_group(entry.path()),
    ensures
        lie_under(path, registry, entries.push(entry)),
{
    let more = entries.push(entry);
    assert forall|j: int| 0 <= j < more.len() implies {
        &&& (#[trigger] more[j]).path().len() > path.len()
        &&& more[j] is Group ==> registry.contains_group(more[j].path())
    } by {
        if j < entries.len() {
            assert(more[j] == entries[j]);
        }
    }
}

/// Opening a scope keeps the nesting.
proof fn lemma_nests_begin(state: BuildState, calls: Seq<ScopeCall>, call: ScopeCall)
    requires
        tracks(state, calls),
        nests(state, calls),
        call is BeginTask || call is BeginGroup,
        well_nested(calls.push(call)),
        after_call(state, call) matches Some(next) && tracks(next, calls.push(call)),
    ensures
        after_call(state, call) matches Some(next) && nests(next, calls.push(call)),
{
    let all = calls.push(call);
    assert(all.drop_last() =~= calls);
    assert(all.last() == call);
    let next = after_call(state, call)->0;
    let open = open_scopes(calls);
    let open_next = open_scopes(all);
    let scope = open_next.last();
    assert(open_next == open.push(scope));
    assert(next.registry == state.registry);
    assert forall|i: int| 0 <= i < next.frames.len() implies (#[trigger] next.frames[i] matches FrameView::Group {
        full_path,
        group,
    } ==> lie_under(full_path, next.registry, group.entries)) by {
        if i < state.frames.len() {
            assert(next.frames[i] == state.frames[i]);
        }
    }
    assert forall|i: int| 0 <= i < open_next.len() implies (#[trigger] open_next[i]).path().len()
        > outer_length(open_next, i) by {
        if i < open.len() {
            assert(open_next[i] == open[i]);
            assert(open[i].path().len() > outer_length(open, i));
            if i > 0 {
                assert(open_next[i - 1] == open[i - 1]);
            }
        } else if open.len() > 0 {
            let parent = open[open.len() - 1];
            assert(open_next[i - 1] == parent);
            assert(parent.names.len() > 0);
            assert(scope.names.drop_last() =~= parent.names);
        } else {
            assert(scope.names.len() == 1);
        }
    }
}

/// Closing the innermost scope keeps the nesting.
proof fn lemma_nests_end(state: BuildState, calls: Seq<ScopeCall>, call: ScopeCall)
    requires
        tracks(state, calls),
        nests(state, calls),
        call is EndTask || call is EndGroup,
        well_nested(calls.push(call)),
        after_call(state, call) matches Some(next) && tracks(next, calls.push(call)),
    ensures
        after_call(state, call) matches Some(next) && nests(next, calls.push(call)),
{
    let all = calls.push(call);
    assert(all.drop_last() =~= calls);
    assert(all.last() == call);
    let next = after_call(state, call)->0;
    let open = open_scopes(calls);
    let open_next = open_scopes(all);
    assert(open_next == open.drop_last());
    let top = open.len() as int;
    let scope = open[top - 1];
    let path = scope.path();
    assert(frame_is(state.frames[top - 1 + 1], open[top - 1]));
    assert(state.frames.last() == state.frames[top]);
    assert(path.len() > outer_length(open, top - 1));
    let below = state.frames.drop_last();
    let kept = match state.frames.last() {
        FrameView::Group { full_path, group } => state.registry.with_group(full_path, group),
        FrameView::Task { full_path, task } => state.registry.with_task(full_path, task),
        FrameView::Root => state.registry,
    };
    let entry = if scope.is_task {
        RegistryEntryView::Task(path)
    } else {
        RegistryEntryView::Group(path)
    };
    assert(!state.registry.group_paths().contains(path));
    match state.frames.last() {
        FrameView::Group { full_path, group } => {
            lemma_new_name(state.registry.groups, full_path, group);
            crate::text::lemma_first_index_of(state.registry.group_paths(), full_path);
            assert(kept.groups == state.registry.groups.push((full_path, group)));
            assert(kept.group_paths()[kept.groups.len() - 1] == path);
            assert(kept.contains_group(path));
        },
        _ => {
            assert(kept.groups == state.registry.groups);
        },
    }
    assert forall|known: Seq<char>| #[trigger]
        state.registry.contains_group(known) implies kept.contains_group(known) by {
        let k = choose|k: int|
            0 <= k < state.registry.group_paths().len() && state.registry.group_paths()[k]
                == known;
        assert(kept.group_paths()[k] == known);
    }
    assert(next.registry.groups == kept.groups);
    assert forall|known: Seq<char>| #[trigger]
        state.registry.contains_group(known) implies next.registry.contains_group(known) by {
        assert(kept.contains_group(known));
    }
    assert(entry is Group ==> next.registry.contains_group(entry.path()));
    assert forall|i: int| 0 <= i < next.registry.groups.len() implies lie_under(
        (#[trigger] next.registry.groups[i]).0,
        next.registry,
        next.registry.groups[i].1.entries,
    ) by {
        if i < state.registry.groups.len() {
            assert(next.registry.groups[i] == state.registry.groups[i]);
            lemma_lie_under_more(
                state.registry.groups[i].0,
                state.registry,
                next.registry,
                state.registry.groups[i].1.entries,
            );
        } else {
            match state.frames.last() {
                FrameView::Group { full_path, group } => {
                    lemma_lie_under_more(full_path, state.registry, next.registry, group.entries);
                },
                _ => {},
            }
        }
    }
    if below.last() is Group {
        let parent = open[top - 2];
        assert(frame_is(state.frames[top - 2 + 1], open[top - 2]));
        assert(below.last() == state.frames[top - 1]);
        assert(next.registry.root_entries == state.registry.root_entries);
        lemma_lie_under_more(
            Seq::empty(),
            state.registry,
            next.registry,
            state.registry.root_entries,
        );
        assert forall|i: int| 0 <= i < next.frames.len() implies (#[trigger] next.frames[i] matches FrameView::Group {
            full_path,
            group,
        } ==> lie_under(full_path, next.registry, group.entries)) by {
            if i < next.frames.len() - 1 {
                assert(next.frames[i] == state.frames[i]);
                match state.frames[i] {
                    FrameView::Group { full_path, group } => {
                        lemma_lie_under_more(
                            full_path,
                            state.registry,
                            next.registry,
                            group.entries,
                        );
                    },
                    _ => {},
                }
            } else {
                match state.frames[top - 1] {
                    FrameView::Group { full_path, group } => {
                        assert(full_path == parent.path());
                        lemma_lie_under_more(
                            full_path,
                            state.registry,
                            next.registry,
                            group.entries,
                        );
                        lemma_lie_under_push(full_path, next.registry, group.entries, entry);
                    },
                    _ => {},
                }
            }
        }
    } else {
        assert(next.frames == below);
        assert(next.registry.root_entries == state.registry.root_entries.push(entry));
        lemma_lie_under_more(
            Seq::empty(),
            state.registry,
            next.registry,
            state.registry.root_entries,
        );
        lemma_lie_under_push(Seq::empty(), next.registry, state.registry.root_entries, entry);
        assert forall|i: int| 0 <= i < next.frames.len() implies (#[trigger] next.frames[i] matches FrameView::Group {
            full_path,
            group,
        } ==> lie_under(full_path, next.registry, group.entries)) by {
            assert(next.frames[i] == state.frames[i]);
            match state.frames[i] {
                FrameView::Group { full_path, group } => {
                    lemma_lie_under_more(full_path, state.registry, next.registry, group.entries);
                },
                _ => {},
            }
        }
    }
    assert forall|i: int| 0 <= i < open_next.len() implies (#[trigger] open_next[i]).path().len()
        > outer_length(open_next, i) by {
        assert(open_next[i] == open[i]);
        assert(open[i].path().len() > outer_length(open, i));
        if i > 0 {
            assert(open_next[i - 1] == open[i - 1]);
        }
    }
}

/// Calls that nest properly and open no full path twice lead to a state in
/// which everything recorded lies under the scope it is recorded in.
pub proof fn lemma_calls_nest(calls: Seq<ScopeCall>)
    requires
        well_nested(calls),
        uniquely_named(calls),
    ensures
        after_calls(calls) matches Some(state) && tracks(state, calls) && nests(state, calls),
    decreases calls.len(),
{
    lemma_calls_stay_on_track(calls);
    if calls.len() > 0 {
        let before = calls.drop_last();
        let call = calls.last();
        assert(before.push(call) =~= calls);
        assert(uniquely_named(before)) by {
            let paths = crate::task::stack::scopes::opened_paths(before);
            let all = crate::task::stack::scopes::opened_paths(calls);
            assert forall|i: int, j: int|
                0 <= i < paths.len() && 0 <= j < paths.len() && i != j implies paths[i]
                != paths[j] by {
                assert(all[i] == paths[i] && all[j] == paths[j]);
            }
        }
        lemma_calls_nest(before);
        let state = after_calls(before)->0;
        if call is BeginTask || call is BeginGroup {
            lemma_nests_begin(state, before, call);
        } else {
            lemma_nests_end(state, before, call);
        }
    } else {
        let state = initial_state();
        assert(state.frames[0] is Root);
    }
}

/// In a registry built by scope calls that nest properly and open no full
/// path twice, a listing opens every group it meets: each group among the
/// entries of a stored group, and each among the root-level entries, is
/// stored and lies deeper than what holds it.
pub proof fn lemma_listing_opens_built_groups(calls: Seq<ScopeCall>)
    requires
        well_nested(calls),
        uniquely_named(calls),
    ensures
        after_calls(calls) matches Some(state) && {
            &&& forall|i: int, j: int|
                0 <= i < state.registry.groups.len() && 0 <= j
                    < state.registry.groups[i].1.entries.len()
                    && #[trigger] state.registry.groups[i].1.entries[j] is Group ==> opens(
                    state.registry,
                    state.registry.groups[i].0,
                    state.registry.groups[i].1.entries[j].path(),
                )
            &&& forall|j: int|
                0 <= j < state.registry.root_entries.len()
                    && #[trigger] state.registry.root_entries[j] is Group ==> opens(
                    state.registry,
                    Seq::empty(),
                    state.registry.root_entries[j].path(),
                )
        },
{
    lemma_calls_nest(calls);
    let state = after_calls(calls)->0;
    assert forall|i: int, j: int|
        0 <= i < state.registry.groups.len() && 0 <= j < state.registry.groups[i].1.entries.len()
            && #[trigger] state.registry.groups[i].1.entries[j] is Group implies opens(
        state.registry,
        state.registry.groups[i].0,
        state.registry.groups[i].1.entries[j].path(),
    ) by {
        assert(lie_under(
            state.registry.groups[i].0,
            state.registry,
            state.registry.groups[i].1.entries,
        ));
    }
}

} // verus!
