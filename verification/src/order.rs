//! The order of texts by which a directory keeps its children: character by
//! character, by the characters' code points.

use vstd::prelude::*;

verus! {

/// `a` comes before `b`, given that they agree before index `from`.
pub open spec fn less_from(a: Seq<char>, b: Seq<char>, from: int) -> bool
    decreases b.len() - from,
{
    if from < 0 || from >= b.len() {
        false
    } else if from >= a.len() {
        true
    } else if a[from] != b[from] {
        (a[from] as int) < (b[from] as int)
    } else {
        less_from(a, b, from + 1)
    }
}

/// `a` comes before `b`: at the first place where they differ `a` has the
/// smaller character, or `a` ends there and `b` goes on.
pub open spec fn less(a: Seq<char>, b: Seq<char>) -> bool {
    less_from(a, b, 0)
}

proof fn less_from_irreflexive(a: Seq<char>, from: int)
    requires
        0 <= from,
    ensures
        !less_from(a, a, from),
    decreases a.len() - from,
{
    if from < a.len() {
        less_from_irreflexive(a, from + 1);
    }
}

proof fn less_from_transitive(a: Seq<char>, b: Seq<char>, c: Seq<char>, from: int)
    requires
        0 <= from,
        less_from(a, b, from),
        less_from(b, c, from),
    ensures
        less_from(a, c, from),
    decreases c.len() - from,
{
    if from < a.len() && a[from] == b[from] && b[from] == c[from] {
        less_from_transitive(a, b, c, from + 1);
    }
}

proof fn less_from_total(a: Seq<char>, b: Seq<char>, from: int)
    requires
        0 <= from <= a.len(),
        from <= b.len(),
        forall|j: int| 0 <= j < from ==> a[j] == b[j],
        !less_from(a, b, from),
        !less_from(b, a, from),
    ensures
        a == b,
    decreases a.len() - from,
{
    if from < a.len() && from < b.len() {
        if a[from] != b[from] {
            assert(a[from] as int != b[from] as int);
        } else {
            less_from_total(a, b, from + 1);
        }
    } else {
        assert(a =~= b);
    }
}

/// No text comes before itself.
pub proof fn less_irreflexive(a: Seq<char>)
    ensures
        !less(a, a),
{
    less_from_irreflexive(a, 0);
}

/// What comes before a text comes before everything after that text.
pub proof fn less_transitive(a: Seq<char>, b: Seq<char>, c: Seq<char>)
    requires
        less(a, b),
        less(b, c),
    ensures
        less(a, c),
{
    less_from_transitive(a, b, c, 0);
}

/// Of two different texts one comes before the other.
pub proof fn less_total(a: Seq<char>, b: Seq<char>)
    ensures
        a == b || less(a, b) || less(b, a),
{
    if !less(a, b) && !less(b, a) {
        less_from_total(a, b, 0);
    }
}

/// Whether `a` comes before `b`.
pub fn text_less(a: &str, b: &str) -> (r: bool)
    ensures
        r == less(a@, b@),
{
    let a_len = a.unicode_len();
    let b_len = b.unicode_len();
    let mut i: usize = 0;
    while i < a_len && i < b_len
        invariant
            i <= a_len,
            i <= b_len,
            a_len == a@.len(),
            b_len == b@.len(),
            less(a@, b@) == less_from(a@, b@, i as int),
        decreases a_len - i,
    {
        let x = a.get_char(i);
        let y = b.get_char(i);
        if x != y {
            return (x as u32) < (y as u32);
        }
        i += 1;
    }
    i < b_len
}

/// The index of the first entry at or after `from` whose name does not come
/// before `key`; the length where every name does.
pub open spec fn rank<V>(entries: Seq<(Seq<char>, V)>, key: Seq<char>, from: int) -> int
    decreases entries.len() - from,
{
    if from < 0 || from >= entries.len() {
        entries.len() as int
    } else if less(entries[from].0, key) {
        rank(entries, key, from + 1)
    } else {
        from
    }
}

/// The list after `key` is given `value` in a list kept in order: an entry of
/// that name takes the value, and without one a new entry goes where the
/// order puts it.
pub open spec fn placed<V>(entries: Seq<(Seq<char>, V)>, key: Seq<char>, value: V) -> Seq<
    (Seq<char>, V),
> {
    let at = rank(entries, key, 0);
    if at < entries.len() && entries[at].0 == key {
        entries.update(at, (key, value))
    } else {
        entries.insert(at, (key, value))
    }
}

/// Every name comes before the names after it.
pub open spec fn sorted<V>(entries: Seq<(Seq<char>, V)>) -> bool {
    forall|i: int, j: int| 0 <= i < j < entries.len() ==> less(entries[i].0, entries[j].0)
}

/// Before the rank every name comes before the key, and the name at the rank
/// does not.
pub proof fn rank_splits<V>(entries: Seq<(Seq<char>, V)>, key: Seq<char>, from: int)
    requires
        0 <= from <= entries.len(),
    ensures
        from <= rank(entries, key, from) <= entries.len(),
        forall|j: int| from <= j < rank(entries, key, from) ==> less(entries[j].0, key),
        rank(entries, key, from) < entries.len() ==> !less(
            entries[rank(entries, key, from)].0,
            key,
        ),
    decreases entries.len() - from,
{
    if from < entries.len() && less(entries[from].0, key) {
        rank_splits(entries, key, from + 1);
    }
}

/// A list in order stays in order when a name is given a value.
pub proof fn placed_sorted<V>(entries: Seq<(Seq<char>, V)>, key: Seq<char>, value: V)
    requires
        sorted(entries),
    ensures
        sorted(placed(entries, key, value)),
{
    let at = rank(entries, key, 0);
    let after = placed(entries, key, value);
    rank_splits(entries, key, 0);
    if at < entries.len() && entries[at].0 == key {
        assert forall|i: int, j: int| 0 <= i < j < after.len() implies less(
            after[i].0,
            after[j].0,
        ) by {
            assert(after[i].0 == entries[i].0);
            assert(after[j].0 == entries[j].0);
        }
    } else {
        assert forall|i: int, j: int| 0 <= i < j < after.len() implies less(
            after[i].0,
            after[j].0,
        ) by {
            if j < at {
                assert(after[i] == entries[i] && after[j] == entries[j]);
            } else if j == at {
                assert(after[i] == entries[i]);
            } else if i == at {
                assert(after[j] == entries[j - 1]);
                less_total(key, entries[at].0);
                if j - 1 > at {
                    less_transitive(key, entries[at].0, entries[j - 1].0);
                }
            } else if i < at {
                assert(after[i] == entries[i] && after[j] == entries[j - 1]);
            } else {
                assert(after[i] == entries[i - 1] && after[j] == entries[j - 1]);
            }
        }
    }
}

/// In a list in order no name occurs twice.
pub proof fn sorted_distinct<V>(entries: Seq<(Seq<char>, V)>)
    requires
        sorted(entries),
    ensures
        crate::entries::distinct(entries),
{
    assert forall|i: int, j: int| 0 <= i < j < entries.len() implies entries[i].0
        != entries[j].0 by {
        less_irreflexive(entries[i].0);
    }
}

/// After a name is given a value in a list kept in order, the name holds the
/// value and every other name holds what it held.
pub proof fn placed_then_lookup<V>(
    entries: Seq<(Seq<char>, V)>,
    key: Seq<char>,
    value: V,
    other: Seq<char>,
)
    ensures
        crate::entries::lookup(placed(entries, key, value), key) == Some(value),
        other != key ==> crate::entries::lookup(placed(entries, key, value), other)
            == crate::entries::lookup(entries, other),
{
    let at = rank(entries, key, 0);
    let after = placed(entries, key, value);
    rank_splits(entries, key, 0);
    assert forall|j: int| 0 <= j < at implies entries[j].0 != key by {
        less_irreflexive(key);
    }
    crate::entries::position_first(entries, other, 0);
    crate::entries::position_first(after, key, 0);
    crate::entries::position_first(after, other, 0);
    if at < entries.len() && entries[at].0 == key {
        assert(after[at].0 == key);
        assert(forall|j: int| 0 <= j < after.len() && j != at ==> after[j] == entries[j]);
    } else {
        assert(after[at].0 == key);
        assert(forall|j: int| 0 <= j < at ==> after[j] == entries[j]);
        assert(forall|j: int| at < j < after.len() ==> after[j] == entries[j - 1]);
        if other != key {
            match crate::entries::position(entries, other, 0) {
                Some(i) => {
                    let moved = if i < at { i } else { i + 1 };
                    assert(after[moved] == entries[i]);
                    assert forall|j: int| 0 <= j < moved implies after[j].0 != other by {
                        if j < at {
                            assert(after[j] == entries[j]);
                        } else if j > at {
                            assert(after[j] == entries[j - 1]);
                        }
                    }
                    crate::entries::position_found(after, other, moved);
                },
                None => {
                    assert forall|j: int| 0 <= j < after.len() implies after[j].0 != other by {
                        if j < at {
                            assert(after[j] == entries[j]);
                        } else if j > at {
                            assert(after[j] == entries[j - 1]);
                        }
                    }
                    crate::entries::position_absent(after, other);
                },
            }
        }
    }
}

} // verus!
