//! Insertion-ordered maps keyed by name, as `indexmap::IndexMap` provides
//! them.
//!
//! Verus does not read `indexmap`. This module names what each map holds, as
//! the sequence of its key-value pairs in iteration order, and states for
//! every method the library calls what the `indexmap` documentation says it
//! does to that sequence. Nothing here is proved; everything else in the
//! crate is proved from it.

use vstd::prelude::*;
use indexmap::IndexMap;
use crate::task::model::{Group, Task};
use crate::text::first_index_of;

verus! {

/// `indexmap::IndexMap`: a hash map that iterates in insertion order.
#[verifier::external_type_specification]
#[verifier::external_body]
#[verifier::reject_recursive_types(K)]
#[verifier::reject_recursive_types(V)]
#[verifier::reject_recursive_types(S)]
pub struct ExIndexMap<K, V, S>(IndexMap<K, V, S>);

/// The key-value pairs of a task map, in iteration order.
pub uninterp spec fn task_entries(map: IndexMap<String, Task>) -> Seq<(String, Task)>;

/// The key-value pairs of a group map, in iteration order.
pub uninterp spec fn group_entries(map: IndexMap<String, Group>) -> Seq<(String, Group)>;

/// The key-value pairs of a map of named argument values, in iteration
/// order.
pub uninterp spec fn named_entries(map: IndexMap<String, String>) -> Seq<(String, String)>;

/// The keys of `entries`, as text, in order.
pub open spec fn keys_of<V>(entries: Seq<(String, V)>) -> Seq<Seq<char>> {
    entries.map_values(|entry: (String, V)| entry.0@)
}

/// Where `key` stands in `entries`: the index of the first pair with that
/// key, or `entries.len()` when there is none.
pub open spec fn position_of<V>(entries: Seq<(String, V)>, key: Seq<char>) -> int {
    first_index_of(keys_of(entries), key)
}

/// The value stored under `key`, if any.
pub open spec fn value_of<V>(entries: Seq<(String, V)>, key: Seq<char>) -> Option<V> {
    if position_of(entries, key) < entries.len() {
        Some(entries[position_of(entries, key)].1)
    } else {
        None
    }
}

/// `entries` after `value` was stored under `key`: a pair with that key
/// keeps its key and its place and takes the new value; otherwise the new
/// pair comes last.
pub open spec fn with_entry<V>(entries: Seq<(String, V)>, key: String, value: V) -> Seq<
    (String, V),
> {
    let at = position_of(entries, key@);
    if at < entries.len() {
        entries.update(at, (entries[at].0, value))
    } else {
        entries.push((key, value))
    }
}

/// `entries` after the pair under `key` was taken out: the pairs behind it
/// move up and keep their order.
pub open spec fn without_entry<V>(entries: Seq<(String, V)>, key: Seq<char>) -> Seq<(String, V)> {
    let at = position_of(entries, key);
    if at < entries.len() {
        entries.remove(at)
    } else {
        entries
    }
}

/// The names and values of a map of named argument values, as plain text,
/// in iteration order.
pub open spec fn named_values(map: IndexMap<String, String>) -> Seq<(Seq<char>, Seq<char>)> {
    named_entries(map).map_values(|entry: (String, String)| (entry.0@, entry.1@))
}

/// The first components of `pairs`, in order.
pub open spec fn names_of<V>(pairs: Seq<(Seq<char>, V)>) -> Seq<Seq<char>> {
    pairs.map_values(|pair: (Seq<char>, V)| pair.0)
}

/// `pairs` after `value` was stored under `name`: a pair with that name
/// keeps its place and takes the new value; otherwise the new pair comes
/// last.
pub open spec fn with_value<V>(pairs: Seq<(Seq<char>, V)>, name: Seq<char>, value: V) -> Seq<
    (Seq<char>, V),
> {
    let at = first_index_of(names_of(pairs), name);
    if at < pairs.len() {
        pairs.update(at, (name, value))
    } else {
        pairs.push((name, value))
    }
}

/// `IndexMap::new`: a map that holds nothing.
#[verifier::external_body]
pub(crate) fn task_map_new() -> (map: IndexMap<String, Task>)
    ensures
        task_entries(map) == Seq::<(String, Task)>::empty(),
{
    IndexMap::new()
}

/// `IndexMap::len`: how many pairs the map holds.
#[verifier::external_body]
pub(crate) fn task_map_len(map: &IndexMap<String, Task>) -> (count: usize)
    ensures
        count == task_entries(*map).len(),
{
    map.len()
}

/// `IndexMap::insert`: stores `value` under `key` as `with_entry` says and
/// returns the value that stood there before.
#[verifier::external_body]
pub(crate) fn task_map_insert(
    map: &mut IndexMap<String, Task>,
    key: String,
    value: Task,
) -> (previous: Option<Task>)
    ensures
        task_entries(*final(map)) == with_entry(task_entries(*old(map)), key, value),
        previous == value_of(task_entries(*old(map)), key@),
{
    map.insert(key, value)
}

/// `IndexMap::get`: the value stored under `key`, if any.
#[verifier::external_body]
pub(crate) fn task_map_get<'a>(
    map: &'a IndexMap<String, Task>,
    key: &str,
) -> (found: Option<&'a Task>)
    ensures
        match found {
            Some(value) => value_of(task_entries(*map), key@) == Some(*value),
            None => value_of(task_entries(*map), key@) is None,
        },
{
    map.get(key)
}

/// `IndexMap::get_index`: the pair at `index` in iteration order, `None`
/// from the length of the map on.
#[verifier::external_body]
pub(crate) fn task_map_get_index<'a>(
    map: &'a IndexMap<String, Task>,
    index: usize,
) -> (pair: Option<(&'a String, &'a Task)>)
    ensures
        pair is Some <==> index < task_entries(*map).len(),
        pair matches Some((key, value)) ==> *key == task_entries(*map)[index as int].0 && *value
            == task_entries(*map)[index as int].1,
{
    map.get_index(index)
}

/// `IndexMap::new`: a map that holds nothing.
#[verifier::external_body]
pub(crate) fn group_map_new() -> (map: IndexMap<String, Group>)
    ensures
        group_entries(map) == Seq::<(String, Group)>::empty(),
{
    IndexMap::new()
}

/// `IndexMap::len`: how many pairs the map holds.
#[verifier::external_body]
pub(crate) fn group_map_len(map: &IndexMap<String, Group>) -> (count: usize)
    ensures
        count == group_entries(*map).len(),
{
    map.len()
}

/// `IndexMap::insert`: stores `value` under `key` as `with_entry` says and
/// returns the value that stood there before.
#[verifier::external_body]
pub(crate) fn group_map_insert(
    map: &mut IndexMap<String, Group>,
    key: String,
    value: Group,
) -> (previous: Option<Group>)
    ensures
        group_entries(*final(map)) == with_entry(group_entries(*old(map)), key, value),
        previous == value_of(group_entries(*old(map)), key@),
{
    map.insert(key, value)
}

/// `IndexMap::get`: the value stored under `key`, if any.
#[verifier::external_body]
pub(crate) fn group_map_get<'a>(
    map: &'a IndexMap<String, Group>,
    key: &str,
) -> (found: Option<&'a Group>)
    ensures
        match found {
            Some(value) => value_of(group_entries(*map), key@) == Some(*value),
            None => value_of(group_entries(*map), key@) is None,
        },
{
    map.get(key)
}

/// `IndexMap::get_index`: the pair at `index` in iteration order, `None`
/// from the length of the map on.
#[verifier::external_body]
pub(crate) fn group_map_get_index<'a>(
    map: &'a IndexMap<String, Group>,
    index: usize,
) -> (pair: Option<(&'a String, &'a Group)>)
    ensures
        pair is Some <==> index < group_entries(*map).len(),
        pair matches Some((key, value)) ==> *key == group_entries(*map)[index as int].0 && *value
            == group_entries(*map)[index as int].1,
{
    map.get_index(index)
}

/// `IndexMap::new`: a map that holds nothing.
#[verifier::external_body]
pub(crate) fn named_map_new() -> (map: IndexMap<String, String>)
    ensures
        named_entries(map) == Seq::<(String, String)>::empty(),
{
    IndexMap::new()
}

/// `IndexMap::len`: how many pairs the map holds.
#[verifier::external_body]
pub(crate) fn named_map_len(map: &IndexMap<String, String>) -> (count: usize)
    ensures
        count == named_entries(*map).len(),
{
    map.len()
}

/// `IndexMap::insert`: stores `value` under `key` as `with_entry` says and
/// returns the value that stood there before.
#[verifier::external_body]
pub(crate) fn named_map_insert(
    map: &mut IndexMap<String, String>,
    key: String,
    value: String,
) -> (previous: Option<String>)
    ensures
        named_entries(*final(map)) == with_entry(named_entries(*old(map)), key, value),
        previous == value_of(named_entries(*old(map)), key@),
{
    map.insert(key, value)
}

/// `IndexMap::shift_remove`: takes the pair under `key` out as
/// `without_entry` says and returns its value.
#[verifier::external_body]
pub(crate) fn named_map_shift_remove(
    map: &mut IndexMap<String, String>,
    key: &str,
) -> (removed: Option<String>)
    ensures
        named_entries(*final(map)) == without_entry(named_entries(*old(map)), key@),
        removed == value_of(named_entries(*old(map)), key@),
{
    map.shift_remove(key)
}

/// `IndexMap::get_index`: the pair at `index` in iteration order, `None`
/// from the length of the map on.
#[verifier::external_body]
pub(crate) fn named_map_get_index<'a>(
    map: &'a IndexMap<String, String>,
    index: usize,
) -> (pair: Option<(&'a String, &'a String)>)
    ensures
        pair is Some <==> index < named_entries(*map).len(),
        pair matches Some((key, value)) ==> *key == named_entries(*map)[index as int].0 && *value
            == named_entries(*map)[index as int].1,
{
    map.get_index(index)
}

} // verus!
