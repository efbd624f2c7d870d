//! Insertion-ordered maps keyed by strings, as `indexmap::IndexMap` keeps
//! them: the entries in insertion order, each key at most once.

use vstd::prelude::*;
use crate::text::same_text;

verus! {

#[verifier::external_type_specification]
#[verifier::external_body]
#[verifier::reject_recursive_types(K)]
#[verifier::reject_recursive_types(V)]
#[verifier::reject_recursive_types(S)]
pub struct ExIndexMap<K, V, S>(indexmap::IndexMap<K, V, S>);

/// Whether some entry has key `k`.
pub open spec fn has_key<V>(s: Seq<(Seq<char>, V)>, k: Seq<char>) -> bool {
    exists|i: int| 0 <= i < s.len() && #[trigger] s[i].0 == k
}

/// The position of the entry with key `k` (meaningful when `has_key`).
pub open spec fn key_index<V>(s: Seq<(Seq<char>, V)>, k: Seq<char>) -> int {
    choose|i: int| 0 <= i < s.len() && #[trigger] s[i].0 == k
}

/// The value stored under `k`, if any.
pub open spec fn lookup<V>(s: Seq<(Seq<char>, V)>, k: Seq<char>) -> Option<V> {
    if has_key(s, k) {
        Some(s[key_index(s, k)].1)
    } else {
        None
    }
}

/// No key occurs twice.
pub open spec fn keys_distinct<V>(s: Seq<(Seq<char>, V)>) -> bool {
    forall|i: int, j: int| 0 <= i < s.len() && 0 <= j < s.len() && i != j ==> s[i].0 != s[j].0
}

/// Inserting `(k, v)`: an existing key keeps its place and takes the new
/// value; a new key goes last.
pub open spec fn insert_entry<V>(s: Seq<(Seq<char>, V)>, k: Seq<char>, v: V) -> Seq<(Seq<char>, V)> {
    if has_key(s, k) {
        s.update(key_index(s, k), (k, v))
    } else {
        s.push((k, v))
    }
}

/// Inserting each pair in order.
pub open spec fn insert_all<V>(s: Seq<(Seq<char>, V)>, pairs: Seq<(Seq<char>, V)>) -> Seq<(Seq<char>, V)>
    decreases pairs.len(),
{
    if pairs.len() == 0 {
        s
    } else {
        let rest = insert_all(s, pairs.drop_last());
        insert_entry(rest, pairs.last().0, pairs.last().1)
    }
}

/// Inserting keeps the keys distinct, puts `v` under `k` and leaves every
/// other key's value and position alone.
pub proof fn lemma_insert_entry<V>(s: Seq<(Seq<char>, V)>, k: Seq<char>, v: V)
    requires
        keys_distinct(s),
    ensures
        keys_distinct(insert_entry(s, k, v)),
        lookup(insert_entry(s, k, v), k) == Some(v),
        forall|k2: Seq<char>| k2 != k ==> lookup(insert_entry(s, k, v), k2) == lookup(s, k2),
        forall|i: int|
            0 <= i < s.len() && s[i].0 != k ==> #[trigger] insert_entry(s, k, v)[i] == s[i],
        has_key(s, k) ==> insert_entry(s, k, v).len() == s.len(),
        !has_key(s, k) ==> insert_entry(s, k, v).len() == s.len() + 1,
{
    let r = insert_entry(s, k, v);
    if has_key(s, k) {
        let ix = key_index(s, k);
        assert(r[ix].0 == k);
        assert(has_key(r, k));
        assert(key_index(r, k) == ix);
    } else {
        assert(r[s.len() as int].0 == k);
        assert(has_key(r, k));
    }
    assert forall|k2: Seq<char>| k2 != k implies lookup(r, k2) == lookup(s, k2) by {
        if has_key(s, k2) {
            let j = key_index(s, k2);
            assert(r[j].0 == k2);
            assert(has_key(r, k2));
        }
        if has_key(r, k2) {
            let j = key_index(r, k2);
            assert(s[j].0 == k2);
        }
    }
}

/// Inserting under the same key twice is inserting the second value once.
pub proof fn lemma_insert_entry_twice<V>(s: Seq<(Seq<char>, V)>, k: Seq<char>, v1: V, v2: V)
    requires
        keys_distinct(s),
    ensures
        insert_entry(insert_entry(s, k, v1), k, v2) == insert_entry(s, k, v2),
{
    lemma_insert_entry(s, k, v1);
    let m = insert_entry(s, k, v1);
    assert(has_key(m, k));
    if has_key(s, k) {
        let ix = key_index(s, k);
        assert(m[ix].0 == k);
        assert(key_index(m, k) == ix);
        assert(insert_entry(m, k, v2) =~= insert_entry(s, k, v2));
    } else {
        assert(m[s.len() as int].0 == k);
        assert(key_index(m, k) == s.len());
        assert(insert_entry(m, k, v2) =~= insert_entry(s, k, v2));
    }
}

/// No two of the strings hold the same text.
pub open spec fn texts_distinct(ks: Seq<String>) -> bool {
    forall|i: int, j: int|
        #![trigger ks[i], ks[j]]
        0 <= i < ks.len() && 0 <= j < ks.len() && i != j ==> ks[i]@ != ks[j]@
}

/// The keys of the entries are the given strings, in order.
pub open spec fn keys_are<V>(ks: Seq<String>, s: Seq<(Seq<char>, V)>) -> bool {
    ks.len() == s.len() && forall|i: int| 0 <= i < ks.len() ==> #[trigger] ks[i]@ == s[i].0
}

/// Entries whose keys are distinct strings have distinct keys.
pub proof fn lemma_keys_are_distinct<V>(ks: Seq<String>, s: Seq<(Seq<char>, V)>)
    requires
        keys_are(ks, s),
    ensures
        texts_distinct(ks) == keys_distinct(s),
{
    if texts_distinct(ks) {
        assert forall|i: int, j: int| 0 <= i < s.len() && 0 <= j < s.len() && i != j implies s[i].0 != s[j].0 by {
            assert(ks[i]@ == s[i].0);
            assert(ks[j]@ == s[j].0);
        }
    }
    if keys_distinct(s) {
        assert forall|i: int, j: int| 0 <= i < ks.len() && 0 <= j < ks.len() && i != j implies ks[i]@ != ks[j]@ by {
            assert(ks[i]@ == s[i].0);
            assert(ks[j]@ == s[j].0);
        }
    }
}

/// Whether no two of the strings hold the same text.
pub fn distinct_texts(ks: &Vec<String>) -> (b: bool)
    ensures
        b == texts_distinct(ks@),
{
    let mut i: usize = 0;
    while i < ks.len()
        invariant
            i <= ks@.len(),
            forall|a: int, c: int|
                #![trigger ks@[a], ks@[c]]
                0 <= a < i && 0 <= c < ks@.len() && a != c ==> ks@[a]@ != ks@[c]@,
        decreases ks@.len() - i,
    {
        let mut j: usize = 0;
        while j < ks.len()
            invariant
                i < ks@.len(),
                j <= ks@.len(),
                forall|a: int, c: int|
                    #![trigger ks@[a], ks@[c]]
                    0 <= a < i && 0 <= c < ks@.len() && a != c ==> ks@[a]@ != ks@[c]@,
                forall|c: int| #![trigger ks@[c]] 0 <= c < j && c != i ==> ks@[i as int]@ != ks@[c]@,
            decreases ks@.len() - j,
        {
            if j != i && same_text(ks[i].as_str(), ks[j].as_str()) {
                assert(!texts_distinct(ks@)) by {
                    assert(ks@[i as int]@ == ks@[j as int]@);
                }
                return false;
            }
            j = j + 1;
        }
        i = i + 1;
    }
    true
}

} // verus!
