//! The per-event tally of a parsed log, kept in an `indexmap::IndexMap` so
//! that events are listed in the order in which they were first seen.

use indexmap::IndexMap;
use vstd::prelude::*;

verus! {

#[verifier::external_type_specification]
#[verifier::external_body]
#[verifier::reject_recursive_types(K)]
#[verifier::reject_recursive_types(V)]
#[verifier::reject_recursive_types(S)]
pub struct ExIndexMap<K, V, S>(IndexMap<K, V, S>);

/// `IndexMap::clone`, so that a parsed log can be cloned. Nothing is claimed
/// of the copy: the map's source copies every entry in order, but no name
/// for a map's contents exists at this generality.
pub assume_specification<K, V, S>[ <IndexMap<K, V, S> as Clone>::clone ](
    m: &IndexMap<K, V, S>,
) -> IndexMap<K, V, S>
    where
        K: Clone,
        V: Clone,
        S: Clone,
;

/// The entries of an event tally, in the map's iteration order.
pub uninterp spec fn tally_entries(m: IndexMap<String, usize>) -> Seq<(Seq<char>, usize)>;

/// Index of the first entry whose key is `key`.
pub open spec fn key_index<V>(entries: Seq<(Seq<char>, V)>, key: Seq<char>) -> Option<int>
    decreases entries.len(),
{
    if entries.len() == 0 {
        None
    } else if entries[0].0 == key {
        Some(0)
    } else {
        match key_index(entries.drop_first(), key) {
            Some(i) => Some(i + 1),
            None => None,
        }
    }
}

/// The value stored under `key`.
pub open spec fn value_of<V>(entries: Seq<(Seq<char>, V)>, key: Seq<char>) -> Option<V> {
    match key_index(entries, key) {
        Some(i) => Some(entries[i].1),
        None => None,
    }
}

/// `IndexMap::insert`: an existing key keeps its place and takes the new
/// value; a new key goes last.
pub open spec fn with_value<V>(entries: Seq<(Seq<char>, V)>, key: Seq<char>, value: V) -> Seq<
    (Seq<char>, V),
> {
    match key_index(entries, key) {
        Some(i) => entries.update(i, (key, value)),
        None => entries.push((key, value)),
    }
}

/// No key occurs twice.
pub open spec fn keys_distinct<V>(entries: Seq<(Seq<char>, V)>) -> bool {
    forall|i: int, j: int|
        0 <= i < entries.len() && 0 <= j < entries.len() && i != j ==> entries[i].0
            != entries[j].0
}

/// Entries with their counts read as natural numbers.
pub open spec fn counts_as_nat(entries: Seq<(Seq<char>, usize)>) -> Seq<(Seq<char>, nat)> {
    entries.map_values(|e: (Seq<char>, usize)| (e.0, e.1 as nat))
}

/// The tally with its counts read as natural numbers.
pub open spec fn tally_view(m: IndexMap<String, usize>) -> Seq<(Seq<char>, nat)> {
    counts_as_nat(tally_entries(m))
}

/// Where `key_index` points: at the first entry with the key, or nowhere
/// when no entry has it.
pub proof fn lemma_key_index<V>(entries: Seq<(Seq<char>, V)>, key: Seq<char>)
    ensures
        key_index(entries, key) matches Some(i) ==> 0 <= i < entries.len() && entries[i].0 == key
            && forall|j: int| 0 <= j < i ==> #[trigger] entries[j].0 != key,
        key_index(entries, key) is None ==> forall|j: int|
            0 <= j < entries.len() ==> #[trigger] entries[j].0 != key,
    decreases entries.len(),
{
    if entries.len() > 0 {
        let rest = entries.drop_first();
        lemma_key_index(rest, key);
        assert forall|j: int| 0 < j < entries.len() implies entries[j] == rest[j - 1] by {}
        if key_index(entries, key) is None {
            assert forall|j: int| 0 <= j < entries.len() implies #[trigger] entries[j].0 != key by {
                if j > 0 {
                    assert(entries[j] == rest[j - 1]);
                }
            }
        }
        if let Some(i) = key_index(entries, key) {
            assert forall|j: int| 0 <= j < i implies #[trigger] entries[j].0 != key by {
                if j > 0 {
                    assert(entries[j] == rest[j - 1]);
                }
            }
        }
    }
}

/// Two sequences with the same keys in the same places find every key in
/// the same place.
pub proof fn lemma_key_index_same_keys<V, W>(
    a: Seq<(Seq<char>, V)>,
    b: Seq<(Seq<char>, W)>,
    key: Seq<char>,
)
    requires
        a.len() == b.len(),
        forall|j: int| 0 <= j < a.len() ==> #[trigger] a[j].0 == b[j].0,
    ensures
        key_index(a, key) == key_index(b, key),
{
    lemma_key_index(a, key);
    lemma_key_index(b, key);
    if let Some(i) = key_index(a, key) {
        assert(b[i].0 == key);
        if let Some(k) = key_index(b, key) {
            assert(a[k].0 == key);
        }
    } else if let Some(k) = key_index(b, key) {
        assert(a[k].0 == key);
    }
}

/// Reading counts as natural numbers keeps every key where it is.
pub proof fn lemma_key_index_as_nat(entries: Seq<(Seq<char>, usize)>, key: Seq<char>)
    ensures
        key_index(counts_as_nat(entries), key) == key_index(entries, key),
        key_index(entries, key) matches Some(i) ==> 0 <= i < entries.len() && entries[i].0
            == key,
{
    lemma_key_index(entries, key);
    lemma_key_index_same_keys(counts_as_nat(entries), entries, key);
}

/// Where every key is found after storing a value under `key`: in its old
/// place when it was there, last when it is the new key, else nowhere.
pub proof fn lemma_with_value_index<V>(entries: Seq<(Seq<char>, V)>, key: Seq<char>, value: V, other: Seq<char>)
    ensures
        key_index(with_value(entries, key, value), other) == match key_index(entries, other) {
            Some(i) => Some(i),
            None => if other == key {
                Some(entries.len() as int)
            } else {
                None
            },
        },
{
    let w = with_value(entries, key, value);
    lemma_key_index(entries, key);
    lemma_key_index(entries, other);
    match key_index(entries, key) {
        Some(i) => {
            lemma_key_index_same_keys(w, entries, other);
        },
        None => {
            lemma_key_index(w, other);
            assert forall|j: int| 0 <= j < entries.len() implies #[trigger] w[j] == entries[j] by {}
            if let Some(i) = key_index(entries, other) {
                assert(w[i].0 == other);
                if let Some(k) = key_index(w, other) {
                    if k < i {
                        assert(w[k] == entries[k]);
                    }
                }
            } else if other == key {
                assert(w[entries.len() as int].0 == other);
                if let Some(k) = key_index(w, other) {
                    if k < entries.len() {
                        assert(w[k] == entries[k]);
                    }
                }
            } else {
                if let Some(k) = key_index(w, other) {
                    if k < entries.len() {
                        assert(w[k] == entries[k]);
                    }
                }
            }
        },
    }
}

/// What is stored under each key after storing `value` under `key`.
pub proof fn lemma_with_value_value<V>(entries: Seq<(Seq<char>, V)>, key: Seq<char>, value: V, other: Seq<char>)
    ensures
        value_of(with_value(entries, key, value), other) == if other == key {
            Some(value)
        } else {
            value_of(entries, other)
        },
{
    lemma_with_value_index(entries, key, value, other);
    lemma_key_index(entries, key);
    lemma_key_index(entries, other);
}

/// Storing twice under one key keeps the second value only.
pub proof fn lemma_with_value_twice<V>(entries: Seq<(Seq<char>, V)>, key: Seq<char>, a: V, b: V)
    ensures
        with_value(with_value(entries, key, a), key, b) == with_value(entries, key, b),
{
    lemma_with_value_index(entries, key, a, key);
    lemma_key_index(entries, key);
    match key_index(entries, key) {
        Some(i) => {
            assert(with_value(with_value(entries, key, a), key, b) =~= with_value(entries, key, b));
        },
        None => {
            assert(with_value(with_value(entries, key, a), key, b) =~= with_value(entries, key, b));
        },
    }
}

/// Storing under a key that is present and under another key can be done
/// in either order.
pub proof fn lemma_with_value_commute<V>(
    entries: Seq<(Seq<char>, V)>,
    key: Seq<char>,
    a: V,
    other: Seq<char>,
    b: V,
)
    requires
        key_index(entries, key) is Some,
        key != other,
    ensures
        with_value(with_value(entries, key, a), other, b) == with_value(
            with_value(entries, other, b),
            key,
            a,
        ),
{
    lemma_key_index(entries, key);
    lemma_key_index(entries, other);
    lemma_with_value_index(entries, key, a, other);
    lemma_with_value_index(entries, other, b, key);
    let l = with_value(with_value(entries, key, a), other, b);
    let r = with_value(with_value(entries, other, b), key, a);
    assert(l =~= r);
}

/// Storing a count commutes with reading counts as natural numbers.
pub proof fn lemma_with_value_as_nat(entries: Seq<(Seq<char>, usize)>, key: Seq<char>, v: usize)
    ensures
        counts_as_nat(with_value(entries, key, v)) == with_value(
            counts_as_nat(entries),
            key,
            v as nat,
        ),
{
    lemma_key_index_as_nat(entries, key);
    match key_index(entries, key) {
        Some(i) => {
            assert(counts_as_nat(with_value(entries, key, v)) =~= with_value(
                counts_as_nat(entries),
                key,
                v as nat,
            ));
        },
        None => {
            assert(counts_as_nat(with_value(entries, key, v)) =~= with_value(
                counts_as_nat(entries),
                key,
                v as nat,
            ));
        },
    }
}

/// `IndexMap::new`: an empty tally.
#[verifier::external_body]
pub(crate) fn new_tally() -> (m: IndexMap<String, usize>)
    ensures
        tally_entries(m) == Seq::<(Seq<char>, usize)>::empty(),
{
    IndexMap::new()
}

/// `IndexMap::get`: the count stored under `key`, if any.
#[verifier::external_body]
pub(crate) fn tally_get(m: &IndexMap<String, usize>, key: &String) -> (r: Option<usize>)
    ensures
        r == value_of(tally_entries(*m), key@),
{
    m.get(key).copied()
}

/// `IndexMap::insert`: stores `value` under `key`, in place when the key is
/// present and last otherwise.
#[verifier::external_body]
pub(crate) fn tally_insert(m: &mut IndexMap<String, usize>, key: String, value: usize)
    ensures
        tally_entries(*final(m)) == with_value(tally_entries(*old(m)), key@, value),
{
    m.insert(key, value);
}

/// `IndexMap::iter`: the entries in order, each copied out as a plain pair.
#[verifier::external_body]
pub(crate) fn tally_list(m: &IndexMap<String, usize>) -> (r: Vec<(String, usize)>)
    ensures
        r@.map_values(|e: (String, usize)| (e.0@, e.1)) == tally_entries(*m),
{
    m.iter().map(|(k, v)| (k.clone(), *v)).collect()
}

} // verus!
