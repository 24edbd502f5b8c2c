//! Tables keyed by identifier, kept as lists of entries: a key occurs at most
//! once and the order is the order of insertion.
use crate::ids::{first_index, lemma_first_index};
use vstd::prelude::*;

verus! {

/// The players of the entries, in order.
pub open spec fn keys<V>(entries: Seq<(Seq<char>, V)>) -> Seq<Seq<char>> {
    entries.map_values(|e: (Seq<char>, V)| e.0)
}

/// The value that `entries` holds for `key`.
pub open spec fn value_of<V>(entries: Seq<(Seq<char>, V)>, key: Seq<char>) -> Option<V> {
    if keys(entries).contains(key) {
        Some(entries[first_index(keys(entries), key)].1)
    } else {
        None
    }
}

/// `entries` with `value` under `key`: replaced in place, or appended.
pub open spec fn upsert<V>(entries: Seq<(Seq<char>, V)>, key: Seq<char>, value: V) -> Seq<
    (Seq<char>, V),
> {
    if keys(entries).contains(key) {
        entries.update(first_index(keys(entries), key), (key, value))
    } else {
        entries.push((key, value))
    }
}

/// What `value_of` finds is an entry under that key, and it finds one exactly
/// when the key occurs.
pub proof fn lemma_value_of<V>(entries: Seq<(Seq<char>, V)>, key: Seq<char>)
    ensures
        value_of(entries, key) is Some <==> keys(entries).contains(key),
        value_of(entries, key) is Some ==> {
            let i = first_index(keys(entries), key);
            0 <= i < entries.len() && entries[i].0 == key && value_of(entries, key) == Some(entries[i].1)
        },
{
    lemma_first_index(keys(entries), key);
}

/// An entry under `key` with nothing under that key before it is the one that
/// `first_index` points at.
pub proof fn lemma_key_at<V>(entries: Seq<(Seq<char>, V)>, key: Seq<char>, at: int)
    requires
        0 <= at < entries.len(),
        entries[at].0 == key,
        forall|j: int| 0 <= j < at ==> entries[j].0 != key,
    ensures
        keys(entries).contains(key),
        first_index(keys(entries), key) == at,
        value_of(entries, key) == Some(entries[at].1),
{
    let ks = keys(entries);
    lemma_first_index(ks, key);
    assert(ks[at] == key);
    assert(ks.contains(key));
    let f = first_index(ks, key);
    if f < at {
        assert(ks[f] == entries[f].0);
    }
    if f > at {
        assert(ks[at] != key);
    }
}

/// No entry under `key` means that the key does not occur.
pub proof fn lemma_key_absent<V>(entries: Seq<(Seq<char>, V)>, key: Seq<char>)
    requires
        forall|j: int| 0 <= j < entries.len() ==> entries[j].0 != key,
    ensures
        !keys(entries).contains(key),
        value_of(entries, key) is None,
{
    let ks = keys(entries);
    if ks.contains(key) {
        let k = choose|k: int| 0 <= k < ks.len() && ks[k] == key;
        assert(entries[k].0 == key);
    }
}

/// The keys after an upsert: the same where the key was there, one more where
/// it was not; duplicate-free where they were before.
pub proof fn lemma_upsert_keys<V>(entries: Seq<(Seq<char>, V)>, key: Seq<char>, value: V)
    ensures
        keys(upsert(entries, key, value)) == crate::ids::with_id(keys(entries), key),
        value_of(upsert(entries, key, value), key) == Some(value),
{
    let ks = keys(entries);
    let out = upsert(entries, key, value);
    lemma_first_index(ks, key);
    if ks.contains(key) {
        let f = first_index(ks, key);
        assert(keys(out) =~= ks);
        assert forall|j: int| 0 <= j < f implies out[j].0 != key by {
            assert(ks[j] == entries[j].0);
        }
        lemma_key_at(out, key, f);
    } else {
        assert(keys(out) =~= ks.push(key));
        assert forall|j: int| 0 <= j < entries.len() implies out[j].0 != key by {
            assert(ks[j] == entries[j].0);
            assert(ks.contains(ks[j]));
        }
        lemma_key_at(out, key, entries.len() as int);
    }
}

/// Index of the first entry under `key`.
pub fn find_key<V>(entries: &Vec<(String, V)>, key: &String) -> (at: Option<usize>)
    ensures
        match at {
            Some(i) => i < entries.len() && entries[i as int].0@ == key@ && forall|j: int|
                0 <= j < i ==> entries[j].0@ != key@,
            None => forall|j: int| 0 <= j < entries.len() ==> entries[j].0@ != key@,
        },
{
    let mut i: usize = 0;
    while i < entries.len()
        invariant
            i <= entries.len(),
            forall|j: int| 0 <= j < i ==> entries[j].0@ != key@,
        decreases entries.len() - i,
    {
        if entries[i].0 == *key {
            return Some(i);
        }
        i += 1;
    }
    None
}

/// `entries` without the first entry under `key`.
pub open spec fn without_key<V>(entries: Seq<(Seq<char>, V)>, key: Seq<char>) -> Seq<(Seq<char>, V)> {
    if keys(entries).contains(key) {
        entries.remove(first_index(keys(entries), key))
    } else {
        entries
    }
}

/// Removes the first entry under `key`, if there is one.
pub fn remove_key<V: DeepView>(entries: &mut Vec<(String, V)>, key: &String)
    ensures
        final(entries).deep_view() == without_key(old(entries).deep_view(), key@),
{
    match find_key(entries, key) {
        Some(i) => {
            proof {
                lemma_key_at(entries.deep_view(), key@, i as int);
            }
            entries.remove(i);
            assert(entries.deep_view() =~= old(entries).deep_view().remove(i as int));
        },
        None => {
            proof {
                lemma_key_absent(entries.deep_view(), key@);
            }
        },
    }
}

/// Puts `value` under `key`: in place of the entry under that key, or last.
pub fn put<V: DeepView>(entries: &mut Vec<(String, V)>, key: String, value: V)
    ensures
        final(entries).deep_view() == upsert(old(entries).deep_view(), key@, value.deep_view()),
{
    match find_key(entries, &key) {
        Some(i) => {
            proof {
                lemma_key_at(entries.deep_view(), key@, i as int);
            }
            entries.set(i, (key, value));
            assert(entries.deep_view() =~= old(entries).deep_view().update(i as int, (key@, value.deep_view())));
        },
        None => {
            proof {
                lemma_key_absent(entries.deep_view(), key@);
            }
            entries.push((key, value));
            assert(entries.deep_view() =~= old(entries).deep_view().push((key@, value.deep_view())));
        },
    }
}

} // verus!
