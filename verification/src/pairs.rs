//! Key/value tables kept as lists of text pairs, read as maps in which a
//! later pair for a key overrides an earlier one.

use crate::command::owned;
use vstd::prelude::*;

verus! {

broadcast use vstd::string::group_string_axioms;

/// The pairs of a vector, as character sequences.
pub open spec fn pairs_view(v: Seq<(String, String)>) -> Seq<(Seq<char>, Seq<char>)> {
    v.map_values(|e: (String, String)| (e.0@, e.1@))
}

/// The value of the last pair for `key`, if any.
pub open spec fn pairs_lookup(entries: Seq<(Seq<char>, Seq<char>)>, key: Seq<char>) -> Option<
    Seq<char>,
>
    decreases entries.len(),
{
    if entries.len() == 0 {
        None
    } else if entries.last().0 == key {
        Some(entries.last().1)
    } else {
        pairs_lookup(entries.drop_last(), key)
    }
}

/// The pairs read into a map, a later pair for a key replacing an earlier
/// one.
pub open spec fn pairs_map(entries: Seq<(Seq<char>, Seq<char>)>) -> Map<Seq<char>, Seq<char>>
    decreases entries.len(),
{
    if entries.len() == 0 {
        Map::empty()
    } else {
        pairs_map(entries.drop_last()).insert(entries.last().0, entries.last().1)
    }
}

/// No key occurs in two pairs.
pub open spec fn keys_unique(entries: Seq<(Seq<char>, Seq<char>)>) -> bool {
    forall|i: int, j: int|
        0 <= i < entries.len() && 0 <= j < entries.len() && i != j ==> entries[i].0
            != entries[j].0
}

/// Looking a key up in the list is looking it up in the map the list
/// describes.
pub proof fn lemma_lookup_is_map(entries: Seq<(Seq<char>, Seq<char>)>, key: Seq<char>)
    ensures
        pairs_lookup(entries, key) == (if pairs_map(entries).contains_key(key) {
            Some(pairs_map(entries)[key])
        } else {
            None
        }),
    decreases entries.len(),
{
    if entries.len() > 0 {
        lemma_lookup_is_map(entries.drop_last(), key);
    }
}

/// Replacing the value of the one pair for `key` updates the map at `key`.
pub proof fn lemma_map_update(
    entries: Seq<(Seq<char>, Seq<char>)>,
    i: int,
    key: Seq<char>,
    value: Seq<char>,
)
    requires
        0 <= i < entries.len(),
        entries[i].0 == key,
        keys_unique(entries),
    ensures
        pairs_map(entries.update(i, (key, value))) == pairs_map(entries).insert(key, value),
    decreases entries.len(),
{
    let n = entries.len();
    let upd = entries.update(i, (key, value));
    if i == n - 1 {
        assert(upd.drop_last() =~= entries.drop_last());
        assert(pairs_map(entries).insert(key, value) =~= pairs_map(entries.drop_last()).insert(
            key,
            value,
        ));
    } else {
        let prev = entries.drop_last();
        assert(upd.drop_last() =~= prev.update(i, (key, value)));
        assert(entries[n - 1].0 != key);
        assert(keys_unique(prev)) by {
            assert forall|a: int, b: int|
                0 <= a < prev.len() && 0 <= b < prev.len() && a != b implies prev[a].0
                != prev[b].0 by {
                assert(prev[a] == entries[a] && prev[b] == entries[b]);
            }
        }
        lemma_map_update(prev, i, key, value);
        assert(upd.last() == entries.last());
        assert(pairs_map(upd) =~= pairs_map(entries).insert(key, value));
    }
}

/// The value of the last pair for `key`.
pub fn lookup_last(entries: &Vec<(String, String)>, key: &str) -> (r: Option<String>)
    ensures
        r.deep_view() == pairs_lookup(pairs_view(entries@), key@),
{
    let k = owned(key);
    let ghost all = pairs_view(entries@);
    let mut i = entries.len();
    assert(all.take(i as int) =~= all);
    while i > 0
        invariant
            i <= entries@.len(),
            all == pairs_view(entries@),
            k@ == key@,
            pairs_lookup(all, key@) == pairs_lookup(all.take(i as int), key@),
        decreases i,
    {
        let ghost prefix = all.take(i as int);
        assert(prefix.drop_last() =~= all.take(i - 1));
        assert(prefix.last() == all[i - 1]);
        if entries[i - 1].0 == k {
            return Some(entries[i - 1].1.clone());
        }
        i = i - 1;
    }
    assert(all.take(0) =~= Seq::<(Seq<char>, Seq<char>)>::empty());
    None
}

/// The position of the pair for `key`, if any.
pub fn position_of(entries: &Vec<(String, String)>, key: &str) -> (r: Option<usize>)
    ensures
        r matches Some(i) ==> i < entries@.len() && pairs_view(entries@)[i as int].0 == key@,
        r is None ==> forall|j: int|
            0 <= j < entries@.len() ==> pairs_view(entries@)[j].0 != key@,
{
    let k = owned(key);
    let mut i: usize = 0;
    while i < entries.len()
        invariant
            i <= entries@.len(),
            k@ == key@,
            forall|j: int| 0 <= j < i ==> pairs_view(entries@)[j].0 != key@,
        decreases entries@.len() - i,
    {
        if entries[i].0 == k {
            return Some(i);
        }
        i = i + 1;
    }
    None
}

} // verus!
