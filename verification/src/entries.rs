//! Ordered lists of named entries: the shape of an object's members and of a
//! directory's children.

use vstd::prelude::*;

verus! {

/// The index of the first entry at or after `from` that is named `key`.
pub open spec fn position<V>(entries: Seq<(Seq<char>, V)>, key: Seq<char>, from: int) -> Option<int>
    decreases entries.len() - from,
{
    if from < 0 || from >= entries.len() {
        None
    } else if entries[from].0 == key {
        Some(from)
    } else {
        position(entries, key, from + 1)
    }
}

/// What the first entry named `key` holds.
pub open spec fn lookup<V>(entries: Seq<(Seq<char>, V)>, key: Seq<char>) -> Option<V> {
    match position(entries, key, 0) {
        Some(i) => Some(entries[i].1),
        None => None,
    }
}

/// The list after `key` is given `value`: the first entry of that name keeps
/// its place and takes the value; without one, a new entry comes last.
pub open spec fn put<V>(entries: Seq<(Seq<char>, V)>, key: Seq<char>, value: V) -> Seq<
    (Seq<char>, V),
> {
    match position(entries, key, 0) {
        Some(i) => entries.update(i, (key, value)),
        None => entries.push((key, value)),
    }
}

/// No name occurs twice.
pub open spec fn distinct<V>(entries: Seq<(Seq<char>, V)>) -> bool {
    forall|i: int, j: int| 0 <= i < j < entries.len() ==> entries[i].0 != entries[j].0
}

/// `position` finds the first match, and none only where there is none.
pub proof fn position_first<V>(entries: Seq<(Seq<char>, V)>, key: Seq<char>, from: int)
    requires
        0 <= from,
    ensures
        match position(entries, key, from) {
            Some(i) => {
                &&& from <= i < entries.len()
                &&& entries[i].0 == key
                &&& forall|j: int| from <= j < i ==> entries[j].0 != key
            },
            None => forall|j: int| from <= j < entries.len() ==> entries[j].0 != key,
        },
    decreases entries.len() - from,
{
    if from < entries.len() && entries[from].0 != key {
        position_first(entries, key, from + 1);
    }
}

/// An index whose entry is the first of its name is what `position` finds.
pub proof fn position_found<V>(entries: Seq<(Seq<char>, V)>, key: Seq<char>, i: int)
    requires
        0 <= i < entries.len(),
        entries[i].0 == key,
        forall|j: int| 0 <= j < i ==> entries[j].0 != key,
    ensures
        position(entries, key, 0) == Some(i),
{
    position_first(entries, key, 0);
}

/// Without an entry of that name `position` finds nothing.
pub proof fn position_absent<V>(entries: Seq<(Seq<char>, V)>, key: Seq<char>)
    requires
        forall|j: int| 0 <= j < entries.len() ==> entries[j].0 != key,
    ensures
        position(entries, key, 0) is None,
{
    position_first(entries, key, 0);
}

/// After `put`, the name holds the value and every other name holds what it
/// held; names that were distinct stay distinct.
pub proof fn put_then_lookup<V>(
    entries: Seq<(Seq<char>, V)>,
    key: Seq<char>,
    value: V,
    other: Seq<char>,
)
    ensures
        lookup(put(entries, key, value), key) == Some(value),
        other != key ==> lookup(put(entries, key, value), other) == lookup(entries, other),
        distinct(entries) ==> distinct(put(entries, key, value)),
{
    let after = put(entries, key, value);
    position_first(entries, key, 0);
    position_first(entries, other, 0);
    position_first(after, key, 0);
    position_first(after, other, 0);
    match position(entries, key, 0) {
        Some(i) => {
            assert(after[i].0 == key);
            assert(forall|j: int| 0 <= j < after.len() && j != i ==> after[j] == entries[j]);
        },
        None => {
            assert(after[entries.len() as int].0 == key);
            assert(forall|j: int| 0 <= j < entries.len() ==> after[j] == entries[j]);
        },
    }
}

/// The index of the first entry named `key`, if there is one.
pub fn find<T>(entries: &Vec<(String, T)>, key: &str) -> (r: Option<usize>)
    ensures
        match r {
            Some(i) => {
                &&& i < entries.len()
                &&& entries[i as int].0@ == key@
                &&& forall|j: int| 0 <= j < i ==> entries[j].0@ != key@
            },
            None => forall|j: int| 0 <= j < entries.len() ==> entries[j].0@ != key@,
        },
{
    let wanted = key.to_owned();
    let mut i: usize = 0;
    while i < entries.len()
        invariant
            i <= entries.len(),
            wanted@ == key@,
            forall|j: int| 0 <= j < i ==> entries[j].0@ != key@,
        decreases entries.len() - i,
    {
        if entries[i].0 == wanted {
            return Some(i);
        }
        i += 1;
    }
    None
}

} // verus!
