//! Association lists keyed by strings: the storage behind object
//! properties.  An entry list with distinct keys stands for the map from
//! each key's text to its value.

use vstd::prelude::*;

use crate::text::{lemma_text_lt_order, spec_text_lt, text_lt};

verus! {

/// No two entries share a key.
pub open spec fn keys_unique<V>(s: Seq<(String, V)>) -> bool {
    forall|i: int, j: int|
        0 <= i < s.len() && 0 <= j < s.len() && i != j ==> #[trigger] s[i].0@ != #[trigger] s[j].0@
}

/// Some entry has key `k`.
pub open spec fn has_key<V>(s: Seq<(String, V)>, k: Seq<char>) -> bool {
    exists|i: int| 0 <= i < s.len() && #[trigger] s[i].0@ == k
}

/// The position of the entry with key `k`.
pub open spec fn key_index<V>(s: Seq<(String, V)>, k: Seq<char>) -> int {
    choose|i: int| 0 <= i < s.len() && #[trigger] s[i].0@ == k
}

/// The map an entry list stands for.
pub open spec fn assoc_map<V>(s: Seq<(String, V)>) -> Map<Seq<char>, V> {
    Map::new(|k: Seq<char>| has_key(s, k), |k: Seq<char>| s[key_index(s, k)].1)
}

/// No key occurs in both lists.
pub open spec fn keys_disjoint<V, W>(s: Seq<(String, V)>, t: Seq<(String, W)>) -> bool {
    forall|i: int, j: int|
        0 <= i < s.len() && 0 <= j < t.len() ==> #[trigger] s[i].0@ != #[trigger] t[j].0@
}

/// The map of a list whose keys are distinct maps each entry's key to
/// that entry's value.
pub proof fn lemma_assoc_at<V>(s: Seq<(String, V)>, i: int)
    requires
        keys_unique(s),
        0 <= i < s.len(),
    ensures
        assoc_map(s).contains_key(s[i].0@),
        assoc_map(s)[s[i].0@] == s[i].1,
        key_index(s, s[i].0@) == i,
{
    assert(has_key(s, s[i].0@));
    let j = key_index(s, s[i].0@);
    assert(s[j].0@ == s[i].0@);
}

/// Writing over the entry that holds a key updates that key in the map.
pub proof fn lemma_assoc_update<V>(s: Seq<(String, V)>, i: int, e: (String, V))
    requires
        keys_unique(s),
        0 <= i < s.len(),
        e.0@ == s[i].0@,
    ensures
        keys_unique(s.update(i, e)),
        assoc_map(s.update(i, e)) =~= assoc_map(s).insert(e.0@, e.1),
        forall|k: Seq<char>| has_key(s.update(i, e), k) <==> has_key(s, k),
{
    let t = s.update(i, e);
    assert forall|a: int, b: int| 0 <= a < t.len() && 0 <= b < t.len() && a != b implies #[trigger] t[a].0@
        != #[trigger] t[b].0@ by {
        assert(s[a].0@ != s[b].0@);
    }
    assert forall|k: Seq<char>| has_key(t, k) <==> has_key(s, k) by {
        if has_key(t, k) {
            let j = choose|j: int| 0 <= j < t.len() && #[trigger] t[j].0@ == k;
            assert(s[j].0@ == k);
        }
        if has_key(s, k) {
            let j = choose|j: int| 0 <= j < s.len() && #[trigger] s[j].0@ == k;
            assert(t[j].0@ == k);
        }
    }
    assert forall|k: Seq<char>| #[trigger] assoc_map(t).contains_key(k) implies assoc_map(t)[k] == assoc_map(
        s,
    ).insert(e.0@, e.1)[k] by {
        let j = key_index(t, k);
        lemma_assoc_at(t, j);
        if k != e.0@ {
            assert(j != i);
            lemma_assoc_at(s, j);
        } else {
            lemma_assoc_at(t, i);
        }
    }
}

/// Appending an entry under a fresh key adds that key to the map.
pub proof fn lemma_assoc_push<V>(s: Seq<(String, V)>, e: (String, V))
    requires
        keys_unique(s),
        !has_key(s, e.0@),
    ensures
        keys_unique(s.push(e)),
        assoc_map(s.push(e)) =~= assoc_map(s).insert(e.0@, e.1),
        forall|k: Seq<char>| has_key(s.push(e), k) <==> (has_key(s, k) || k == e.0@),
{
    let t = s.push(e);
    assert forall|a: int, b: int| 0 <= a < t.len() && 0 <= b < t.len() && a != b implies #[trigger] t[a].0@
        != #[trigger] t[b].0@ by {
        if a < s.len() && b < s.len() {
            assert(s[a].0@ != s[b].0@);
        } else if a < s.len() {
            assert(s[a].0@ != e.0@);
        } else {
            assert(s[b].0@ != e.0@);
        }
    }
    assert forall|k: Seq<char>| has_key(t, k) <==> (has_key(s, k) || k == e.0@) by {
        if has_key(t, k) {
            let j = choose|j: int| 0 <= j < t.len() && #[trigger] t[j].0@ == k;
            if j < s.len() {
                assert(s[j].0@ == k);
            }
        }
        if has_key(s, k) {
            let j = choose|j: int| 0 <= j < s.len() && #[trigger] s[j].0@ == k;
            assert(t[j].0@ == k);
        }
        if k == e.0@ {
            assert(t[s.len() as int].0@ == k);
        }
    }
    assert forall|k: Seq<char>| #[trigger] assoc_map(t).contains_key(k) implies assoc_map(t)[k] == assoc_map(
        s,
    ).insert(e.0@, e.1)[k] by {
        let j = key_index(t, k);
        lemma_assoc_at(t, j);
        if j < s.len() {
            lemma_assoc_at(s, j);
        }
    }
}

/// Removing the entry that holds a key removes that key from the map.
pub proof fn lemma_assoc_remove<V>(s: Seq<(String, V)>, i: int)
    requires
        keys_unique(s),
        0 <= i < s.len(),
    ensures
        keys_unique(s.remove(i)),
        assoc_map(s.remove(i)) =~= assoc_map(s).remove(s[i].0@),
        forall|k: Seq<char>| has_key(s.remove(i), k) <==> (has_key(s, k) && k != s[i].0@),
{
    let t = s.remove(i);
    assert forall|a: int, b: int| 0 <= a < t.len() && 0 <= b < t.len() && a != b implies #[trigger] t[a].0@
        != #[trigger] t[b].0@ by {
        let a2 = if a < i { a } else { a + 1 };
        let b2 = if b < i { b } else { b + 1 };
        assert(s[a2].0@ != s[b2].0@);
    }
    assert forall|k: Seq<char>| has_key(t, k) <==> (has_key(s, k) && k != s[i].0@) by {
        if has_key(t, k) {
            let j = choose|j: int| 0 <= j < t.len() && #[trigger] t[j].0@ == k;
            let j2 = if j < i { j } else { j + 1 };
            assert(s[j2].0@ == k);
            assert(j2 != i);
        }
        if has_key(s, k) && k != s[i].0@ {
            let j = choose|j: int| 0 <= j < s.len() && #[trigger] s[j].0@ == k;
            let j2 = if j < i { j } else { j - 1 };
            assert(t[j2].0@ == k);
        }
    }
    assert forall|k: Seq<char>| #[trigger] assoc_map(t).contains_key(k) implies assoc_map(t)[k] == assoc_map(
        s,
    ).remove(s[i].0@)[k] by {
        let j = key_index(t, k);
        lemma_assoc_at(t, j);
        let j2 = if j < i { j } else { j + 1 };
        assert(s[j2] == t[j]);
        lemma_assoc_at(s, j2);
    }
}

/// The keys ascend in code-point order (so none occurs twice).
pub open spec fn keys_sorted<V>(s: Seq<(String, V)>) -> bool {
    forall|i: int, j: int| 0 <= i < j < s.len() ==> spec_text_lt(#[trigger] s[i].0@, #[trigger] s[j].0@)
}

/// Ascending keys are distinct.
pub proof fn lemma_sorted_unique<V>(s: Seq<(String, V)>)
    requires
        keys_sorted(s),
    ensures
        keys_unique(s),
{
    assert forall|i: int, j: int| 0 <= i < s.len() && 0 <= j < s.len() && i != j implies #[trigger] s[i].0@
        != #[trigger] s[j].0@ by {
        lemma_text_lt_order(s[i].0@, s[j].0@, s[j].0@);
        lemma_text_lt_order(s[j].0@, s[i].0@, s[i].0@);
    }
}

/// Dropping an entry keeps the keys ascending.
pub proof fn lemma_sorted_remove<V>(s: Seq<(String, V)>, i: int)
    requires
        keys_sorted(s),
        0 <= i < s.len(),
    ensures
        keys_sorted(s.remove(i)),
{
    let t = s.remove(i);
    assert forall|a: int, b: int| 0 <= a < b < t.len() implies spec_text_lt(#[trigger] t[a].0@, #[trigger] t[b].0@) by {
        let a2 = if a < i { a } else { a + 1 };
        let b2 = if b < i { b } else { b + 1 };
        assert(t[a] == s[a2] && t[b] == s[b2]);
    }
}

/// Writing over an entry under the same key keeps the keys ascending.
pub proof fn lemma_sorted_update<V>(s: Seq<(String, V)>, i: int, e: (String, V))
    requires
        keys_sorted(s),
        0 <= i < s.len(),
        e.0@ == s[i].0@,
    ensures
        keys_sorted(s.update(i, e)),
{
    let t = s.update(i, e);
    assert forall|a: int, b: int| 0 <= a < b < t.len() implies spec_text_lt(#[trigger] t[a].0@, #[trigger] t[b].0@) by {
        assert(t[a].0@ == s[a].0@ && t[b].0@ == s[b].0@);
    }
}

/// Inserting an entry under a fresh key between the keys below it and the
/// keys above it keeps the keys ascending and adds the key to the map.
pub proof fn lemma_sorted_insert<V>(s: Seq<(String, V)>, p: int, e: (String, V))
    requires
        keys_sorted(s),
        0 <= p <= s.len(),
        forall|i: int| 0 <= i < p ==> spec_text_lt(#[trigger] s[i].0@, e.0@),
        forall|i: int| p <= i < s.len() ==> spec_text_lt(e.0@, #[trigger] s[i].0@),
    ensures
        keys_sorted(s.insert(p, e)),
        assoc_map(s.insert(p, e)) =~= assoc_map(s).insert(e.0@, e.1),
{
    let t = s.insert(p, e);
    assert forall|a: int, b: int| 0 <= a < b < t.len() implies spec_text_lt(#[trigger] t[a].0@, #[trigger] t[b].0@) by {
        if b < p {
            assert(t[a] == s[a] && t[b] == s[b]);
        } else if b == p {
            assert(t[a] == s[a]);
        } else if a < p {
            assert(t[a] == s[a] && t[b] == s[b - 1]);
            lemma_text_lt_order(s[a].0@, e.0@, s[b - 1].0@);
        } else if a == p {
            assert(t[b] == s[b - 1]);
        } else {
            assert(t[a] == s[a - 1] && t[b] == s[b - 1]);
        }
    }
    lemma_sorted_unique(s);
    lemma_sorted_unique(t);
    assert(!has_key(s, e.0@)) by {
        if has_key(s, e.0@) {
            let j = choose|j: int| 0 <= j < s.len() && #[trigger] s[j].0@ == e.0@;
            lemma_text_lt_order(e.0@, e.0@, e.0@);
        }
    }
    assert forall|k: Seq<char>| has_key(t, k) <==> (has_key(s, k) || k == e.0@) by {
        if has_key(t, k) {
            let j = choose|j: int| 0 <= j < t.len() && #[trigger] t[j].0@ == k;
            if j < p {
                assert(s[j].0@ == k);
            } else if j > p {
                assert(s[j - 1].0@ == k);
            }
        }
        if has_key(s, k) {
            let j = choose|j: int| 0 <= j < s.len() && #[trigger] s[j].0@ == k;
            if j < p {
                assert(t[j].0@ == k);
            } else {
                assert(t[j + 1].0@ == k);
            }
        }
        if k == e.0@ {
            assert(t[p].0@ == k);
        }
    }
    assert forall|k: Seq<char>| #[trigger] assoc_map(t).contains_key(k) implies assoc_map(t)[k] == assoc_map(
        s,
    ).insert(e.0@, e.1)[k] by {
        let j = key_index(t, k);
        lemma_assoc_at(t, j);
        if j < p {
            assert(t[j] == s[j]);
            lemma_assoc_at(s, j);
        } else if j > p {
            assert(t[j] == s[j - 1]);
            lemma_assoc_at(s, j - 1);
        }
    }
}

/// Set `key` to `value` in a list with ascending keys: overwrite the
/// entry holding the key, or insert one where the key belongs.
pub fn assoc_put<V>(entries: &mut Vec<(String, V)>, key: String, value: V)
    requires
        keys_sorted(old(entries)@),
    ensures
        keys_sorted(final(entries)@),
        assoc_map(final(entries)@) == assoc_map(old(entries)@).insert(key@, value),
{
    let ghost s0 = entries@;
    proof {
        lemma_sorted_unique(s0);
    }
    let e = (key, value);
    match find_key(entries, &e.0) {
        Some(i) => {
            proof {
                lemma_assoc_update(s0, i as int, e);
                lemma_sorted_update(s0, i as int, e);
            }
            entries.set(i, e);
        },
        None => {
            let mut p: usize = 0;
            while p < entries.len() && !text_lt(e.0.as_str(), entries[p].0.as_str())
                invariant
                    entries@ == s0,
                    p <= s0.len(),
                    !has_key(s0, e.0@),
                    forall|i: int| 0 <= i < p ==> spec_text_lt(#[trigger] s0[i].0@, e.0@),
                decreases s0.len() - p,
            {
                proof {
                    assert(s0[p as int].0@ != e.0@);
                    lemma_text_lt_order(e.0@, s0[p as int].0@, e.0@);
                }
                p = p + 1;
            }
            proof {
                assert forall|i: int| p <= i < s0.len() implies spec_text_lt(e.0@, #[trigger] s0[i].0@) by {
                    if i > p {
                        lemma_text_lt_order(e.0@, s0[p as int].0@, s0[i].0@);
                    }
                }
                lemma_sorted_insert(s0, p as int, e);
            }
            entries.insert(p, e);
        },
    }
}

/// Two lists share no key when their maps share none.
pub proof fn lemma_disjoint_from_maps<V, W>(s: Seq<(String, V)>, t: Seq<(String, W)>)
    requires
        forall|k: Seq<char>| !(#[trigger] assoc_map(s).contains_key(k) && assoc_map(t).contains_key(k)),
    ensures
        keys_disjoint(s, t),
{
    assert forall|i: int, j: int| 0 <= i < s.len() && 0 <= j < t.len() implies #[trigger] s[i].0@ != #[trigger] t[j].0@ by {
        assert(has_key(s, s[i].0@));
        assert(has_key(t, t[j].0@));
        assert(assoc_map(s).contains_key(s[i].0@));
    }
}

/// The maps of two lists that share no key share no key.
pub proof fn lemma_disjoint_maps<V, W>(s: Seq<(String, V)>, t: Seq<(String, W)>, k: Seq<char>)
    requires
        keys_disjoint(s, t),
    ensures
        !(assoc_map(s).contains_key(k) && assoc_map(t).contains_key(k)),
{
    if assoc_map(s).contains_key(k) && assoc_map(t).contains_key(k) {
        let i = choose|i: int| 0 <= i < s.len() && #[trigger] s[i].0@ == k;
        let j = choose|j: int| 0 <= j < t.len() && #[trigger] t[j].0@ == k;
        assert(s[i].0@ != t[j].0@);
    }
}

/// The position of the entry keyed `key`, if any.
pub fn find_key<V>(s: &Vec<(String, V)>, key: &String) -> (r: Option<usize>)
    ensures
        r matches Some(i) ==> i < s@.len() && s@[i as int].0@ == key@,
        r is None ==> !has_key(s@, key@),
{
    let mut i: usize = 0;
    while i < s.len()
        invariant
            i <= s@.len(),
            forall|j: int| 0 <= j < i ==> #[trigger] s@[j].0@ != key@,
        decreases s@.len() - i,
    {
        if s[i].0 == *key {
            return Some(i);
        }
        i = i + 1;
    }
    None
}

/// Set `key` to `value`: overwrite the entry holding the key, or append
/// one.
pub fn assoc_insert<V>(entries: &mut Vec<(String, V)>, key: String, value: V)
    requires
        keys_unique(old(entries)@),
    ensures
        keys_unique(final(entries)@),
        assoc_map(final(entries)@) == assoc_map(old(entries)@).insert(key@, value),
{
    let ghost s0 = entries@;
    let e = (key, value);
    match find_key(entries, &e.0) {
        Some(i) => {
            proof {
                lemma_assoc_update(s0, i as int, e);
            }
            entries.set(i, e);
        },
        None => {
            proof {
                lemma_assoc_push(s0, e);
            }
            entries.push(e);
        },
    }
}

/// Drop the entry holding `key`, if any.
pub fn assoc_delete<V>(entries: &mut Vec<(String, V)>, key: &String)
    requires
        keys_unique(old(entries)@),
    ensures
        keys_unique(final(entries)@),
        assoc_map(final(entries)@) == assoc_map(old(entries)@).remove(key@),
{
    let ghost s0 = entries@;
    match find_key(entries, key) {
        Some(i) => {
            proof {
                lemma_assoc_remove(s0, i as int);
            }
            entries.remove(i);
        },
        None => {
            assert(assoc_map(s0).remove(key@) =~= assoc_map(s0));
        },
    }
}

/// The value stored under `key`, if any.
pub fn assoc_lookup<'a, V>(entries: &'a Vec<(String, V)>, key: &String) -> (r: Option<&'a V>)
    requires
        keys_unique(entries@),
    ensures
        r matches Some(v) ==> assoc_map(entries@).contains_key(key@) && assoc_map(entries@)[key@]
            == *v,
        r is None ==> !assoc_map(entries@).contains_key(key@),
{
    match find_key(entries, key) {
        Some(i) => {
            proof {
                lemma_assoc_at(entries@, i as int);
            }
            Some(&entries[i].1)
        },
        None => None,
    }
}

} // verus!
