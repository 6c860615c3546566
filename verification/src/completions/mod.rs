//! Shell completions: the scripts that complete task names, and the
//! candidates that they ask for.

pub mod bash;
pub mod fish;
pub mod zsh;

use vstd::prelude::*;
use crate::task::registry::TaskRegistry;
use crate::text::{
    has_prefix, lemma_names_compare, name_precedes, same_text, sorts_before,
};

verus! {

/// The shells that completions are written for.
#[derive(Debug, Clone, Copy, PartialEq, Eq, Structural)]
pub enum Shell {
    Bash,
    Zsh,
    Fish,
    /// A shell whose generated script is used as it is.
    Other,
}

/// The script to print for `shell`, given the script that was generated for
/// it: patched for the shells that can ask for task names, unchanged for
/// the others.
pub open spec fn completion_script(shell: Shell, generated: Seq<char>) -> Seq<char> {
    match shell {
        Shell::Bash => bash::patched(generated),
        Shell::Zsh => zsh::patched(generated),
        Shell::Fish => fish::patched(generated),
        Shell::Other => generated,
    }
}

/// The script to print for `shell`: see `completion_script`.
pub fn print(shell: Shell, generated: String) -> (script: String)
    ensures
        script@ == completion_script(shell, generated@),
{
    match shell {
        Shell::Bash => bash::patch(generated),
        Shell::Zsh => zsh::patch(generated),
        Shell::Fish => fish::patch(generated),
        Shell::Other => generated,
    }
}

/// Whether each name of `names` sorts before all that follow it.
pub open spec fn strictly_ordered(names: Seq<Seq<char>>) -> bool {
    forall|i: int, j: int|
        0 <= i < j < names.len() ==> name_precedes(#[trigger] names[i], #[trigger] names[j])
}

/// Puts `name` into the ordered list `names` unless it is there already.
fn insert_name(names: &mut Vec<String>, name: &str)
    requires
        strictly_ordered(old(names).deep_view()),
    ensures
        strictly_ordered(final(names).deep_view()),
        forall|other: Seq<char>|
            final(names).deep_view().contains(other) <==> old(names).deep_view().contains(other)
                || other == name@,
{
    let ghost before = names.deep_view();
    let mut at: usize = 0;
    while at < names.len() && sorts_before(names[at].as_str(), name)
        invariant
            at <= names.len(),
            before == names.deep_view(),
            forall|j: int| 0 <= j < at ==> name_precedes(#[trigger] before[j], name@),
        decreases names.len() - at,
    {
        at += 1;
    }
    if at < names.len() && same_text(names[at].as_str(), name) {
        assert(before[at as int] == name@);
        assert forall|other: Seq<char>| before.contains(other) || other == name@ implies before.contains(
            other,
        ) by {}
        return ;
    }
    let owned = name.to_owned();
    names.insert(at, owned);
    proof {
        let after = names.deep_view();
        assert(after =~= before.insert(at as int, name@));
        if at < before.len() {
            lemma_names_compare(before[at as int], name@);
        }
        assert forall|i: int, j: int| 0 <= i < j < after.len() implies name_precedes(
            #[trigger] after[i],
            #[trigger] after[j],
        ) by {
            if j < at {
                assert(after[i] == before[i] && after[j] == before[j]);
            } else if j == at {
                assert(after[i] == before[i]);
            } else if i == at {
                assert(after[j] == before[j - 1]);
                if j - 1 > at {
                    assert(name_precedes(before[at as int], before[j - 1]));
                    crate::task::stack::parameters::lemma_name_order(
                        name@,
                        before[at as int],
                        before[j - 1],
                    );
                }
            } else if i < at {
                assert(after[i] == before[i] && after[j] == before[j - 1]);
            } else {
                assert(after[i] == before[i - 1] && after[j] == before[j - 1]);
            }
        }
        assert forall|other: Seq<char>| after.contains(other) <==> before.contains(other) || other
            == name@ by {
            if after.contains(other) {
                let k = choose|k: int| 0 <= k < after.len() && after[k] == other;
                if k < at {
                    assert(before[k] == other);
                } else if k > at {
                    assert(before[k - 1] == other);
                }
            }
            if before.contains(other) {
                let k = choose|k: int| 0 <= k < before.len() && before[k] == other;
                if k < at {
                    assert(after[k] == other);
                } else {
                    assert(after[k + 1] == other);
                }
            }
            if other == name@ {
                assert(after[at as int] == other);
            }
        }
    }
}

/// Whether `name` is among the first `count` of `names` and starts with
/// `prefix`.
pub open spec fn listed_before(
    names: Seq<Seq<char>>,
    count: int,
    prefix: Seq<char>,
    name: Seq<char>,
) -> bool {
    prefix.is_prefix_of(name) && exists|k: int| 0 <= k < count && k < names.len() && #[trigger] names[k] == name
}

/// Puts those of `names` that start with `prefix` into the ordered list
/// `found`.
fn insert_names(found: &mut Vec<String>, names: &Vec<&String>, prefix: &str)
    requires
        strictly_ordered(old(found).deep_view()),
    ensures
        strictly_ordered(final(found).deep_view()),
        forall|other: Seq<char>|
            final(found).deep_view().contains(other) <==> old(found).deep_view().contains(other)
                || (names.deep_view().contains(other) && prefix@.is_prefix_of(other)),
{
    let ghost before = found.deep_view();
    let ghost all = names.deep_view();
    let mut i: usize = 0;
    while i < names.len()
        invariant
            i <= names.len(),
            all == names.deep_view(),
            strictly_ordered(found.deep_view()),
            forall|other: Seq<char>|
                found.deep_view().contains(other) <==> before.contains(other) || listed_before(
                    all,
                    i as int,
                    prefix@,
                    other,
                ),
        decreases names.len() - i,
    {
        let ghost held = found.deep_view();
        let ghost current = all[i as int];
        let fits = has_prefix(names[i].as_str(), prefix);
        if fits {
            insert_name(found, names[i].as_str());
        }
        proof {
            let now = found.deep_view();
            assert(current == names[i as int]@);
            assert(fits == prefix@.is_prefix_of(current));
            assert forall|other: Seq<char>| now.contains(other) <==> before.contains(other)
                || listed_before(all, i + 1, prefix@, other) by {
                let was = before.contains(other) || listed_before(all, i as int, prefix@, other);
                assert(held.contains(other) <==> was);
                assert(now.contains(other) <==> held.contains(other) || (fits && other
                    == current));
                if listed_before(all, i as int, prefix@, other) {
                    let k = choose|k: int| 0 <= k < i && k < all.len() && #[trigger] all[k] == other;
                    assert(0 <= k < i + 1 && k < all.len() && all[k] == other);
                    assert(listed_before(all, i + 1, prefix@, other));
                }
                if fits && other == current {
                    assert(0 <= i < i + 1 && i < all.len() && all[i as int] == other);
                    assert(listed_before(all, i + 1, prefix@, other));
                }
                if listed_before(all, i + 1, prefix@, other) {
                    let k = choose|k: int|
                        0 <= k < i + 1 && k < all.len() && #[trigger] all[k] == other;
                    if k < i {
                        assert(0 <= k < i && k < all.len() && all[k] == other);
                        assert(listed_before(all, i as int, prefix@, other));
                    } else {
                        assert(other == current);
                        assert(fits);
                    }
                }
            }
        }
        i += 1;
    }
    proof {
        assert forall|other: Seq<char>|
            found.deep_view().contains(other) <==> before.contains(other) || (all.contains(other)
                && prefix@.is_prefix_of(other)) by {
            assert(found.deep_view().contains(other) <==> before.contains(other) || listed_before(
                all,
                i as int,
                prefix@,
                other,
            ));
            if all.contains(other) && prefix@.is_prefix_of(other) {
                let k = choose|k: int| 0 <= k < all.len() && all[k] == other;
                assert(0 <= k < i && k < all.len() && all[k] == other);
                assert(listed_before(all, i as int, prefix@, other));
            }
            if listed_before(all, i as int, prefix@, other) {
                let k = choose|k: int| 0 <= k < i && k < all.len() && #[trigger] all[k] == other;
                assert(all[k] == other);
                assert(all.contains(other));
            }
        }
    }
}

/// The names that complete `prefix`: the full paths of the tasks and groups
/// of the registry that start with it, each once, in sorted order.
pub fn task_candidates(registry: &TaskRegistry, prefix: &str) -> (names: Vec<String>)
    ensures
        strictly_ordered(names.deep_view()),
        forall|name: Seq<char>|
            names.deep_view().contains(name) <==> (registry@.contains_task(name)
                || registry@.contains_group(name)) && prefix@.is_prefix_of(name),
{
    let mut names: Vec<String> = Vec::new();
    assert(names.deep_view() =~= Seq::<Seq<char>>::empty());
    let tasks = registry.task_paths();
    insert_names(&mut names, &tasks, prefix);
    let groups = registry.group_paths();
    insert_names(&mut names, &groups, prefix);
    names
}

} // verus!
