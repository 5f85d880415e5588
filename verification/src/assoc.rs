//! Spec-level association lists: the model behind every keyed store of the
//! library. A store is a sequence of `(key, value)` pairs with pairwise
//! distinct keys; `lookup` finds the value of the first matching key.

use vstd::prelude::*;

verus! {

/// The value stored under `k`: the first pair whose key equals `k`.
pub open spec fn lookup<V>(s: Seq<(Seq<char>, V)>, k: Seq<char>) -> Option<V>
    decreases s.len(),
{
    if s.len() == 0 {
        None
    } else if s[0].0 == k {
        Some(s[0].1)
    } else {
        lookup(s.subrange(1, s.len() as int), k)
    }
}

/// Whether any pair carries key `k`.
pub open spec fn contains_key<V>(s: Seq<(Seq<char>, V)>, k: Seq<char>) -> bool {
    lookup(s, k) is Some
}

/// No two pairs share a key.
pub open spec fn unique_keys<V>(s: Seq<(Seq<char>, V)>) -> bool {
    forall|i: int, j: int| 0 <= i < j < s.len() ==> s[i].0 != s[j].0
}

/// Skipping pairs whose keys all differ from `k` leaves the lookup
/// unchanged.
pub proof fn lemma_lookup_skip<V>(s: Seq<(Seq<char>, V)>, k: Seq<char>, n: int)
    requires
        0 <= n <= s.len(),
        forall|j: int| 0 <= j < n ==> s[j].0 != k,
    ensures
        lookup(s, k) == lookup(s.subrange(n, s.len() as int), k),
    decreases n,
{
    if n > 0 {
        let rest = s.subrange(1, s.len() as int);
        lemma_lookup_skip(rest, k, n - 1);
        assert(rest.subrange(n - 1, rest.len() as int) =~= s.subrange(n, s.len() as int));
    } else {
        assert(s.subrange(0, s.len() as int) =~= s);
    }
}

/// When no key matches, the lookup misses.
pub proof fn lemma_lookup_absent<V>(s: Seq<(Seq<char>, V)>, k: Seq<char>)
    requires
        forall|j: int| 0 <= j < s.len() ==> s[j].0 != k,
    ensures
        lookup(s, k) is None,
{
    lemma_lookup_skip(s, k, s.len() as int);
    assert(s.subrange(s.len() as int, s.len() as int) =~= Seq::<(Seq<char>, V)>::empty());
}

/// Looking up the key of pair `i` finds exactly that pair, provided no
/// earlier pair shares the key.
pub proof fn lemma_lookup_at<V>(s: Seq<(Seq<char>, V)>, i: int)
    requires
        0 <= i < s.len(),
        forall|j: int| 0 <= j < i ==> s[j].0 != s[i].0,
    ensures
        lookup(s, s[i].0) == Some(s[i].1),
{
    lemma_lookup_skip(s, s[i].0, i);
    let rest = s.subrange(i, s.len() as int);
    assert(rest[0] == s[i]);
}

/// A successful lookup names some pair of the sequence.
pub proof fn lemma_lookup_some_index<V>(s: Seq<(Seq<char>, V)>, k: Seq<char>)
    requires
        lookup(s, k) is Some,
    ensures
        exists|i: int|
            0 <= i < s.len() && s[i].0 == k && #[trigger] s[i].1 == lookup(s, k)->Some_0,
    decreases s.len(),
{
    if s[0].0 != k {
        let rest = s.subrange(1, s.len() as int);
        lemma_lookup_some_index(rest, k);
        let i = choose|i: int|
            0 <= i < rest.len() && rest[i].0 == k && #[trigger] rest[i].1 == lookup(rest, k)->Some_0;
        assert(s[i + 1].0 == k && s[i + 1].1 == lookup(s, k)->Some_0);
    }
}

/// Replacing the value of pair `i` updates that key's lookup and leaves
/// every other key's lookup unchanged.
pub proof fn lemma_lookup_update<V>(s: Seq<(Seq<char>, V)>, i: int, v: V, k: Seq<char>)
    requires
        unique_keys(s),
        0 <= i < s.len(),
    ensures
        lookup(s.update(i, (s[i].0, v)), s[i].0) == Some(v),
        k != s[i].0 ==> lookup(s.update(i, (s[i].0, v)), k) == lookup(s, k),
        unique_keys(s.update(i, (s[i].0, v))),
    decreases s.len(),
{
    let s2 = s.update(i, (s[i].0, v));
    assert(forall|j: int| 0 <= j < s.len() && j != i ==> s2[j] == s[j]);
    assert(forall|j: int| 0 <= j < i ==> s2[j].0 != s2[i].0);
    lemma_lookup_at(s2, i);
    if k != s[i].0 {
        match lookup(s, k) {
            Some(_) => {
                lemma_lookup_some_index(s, k);
                let j = choose|j: int|
                    0 <= j < s.len() && s[j].0 == k && #[trigger] s[j].1 == lookup(s, k)->Some_0;
                assert(forall|m: int| 0 <= m < j ==> s2[m].0 != s2[j].0);
                lemma_lookup_at(s2, j);
            },
            None => {
                assert forall|j: int| 0 <= j < s.len() implies s[j].0 != k by {
                    if s[j].0 == k {
                        lemma_lookup_at(s, j);
                    }
                }
                lemma_lookup_absent(s2, k);
            },
        }
    }
}

/// Appending a pair with a fresh key adds that key's lookup and leaves
/// every other key's lookup unchanged.
pub proof fn lemma_lookup_push<V>(s: Seq<(Seq<char>, V)>, key: Seq<char>, v: V, k: Seq<char>)
    requires
        unique_keys(s),
        forall|j: int| 0 <= j < s.len() ==> s[j].0 != key,
    ensures
        lookup(s.push((key, v)), key) == Some(v),
        k != key ==> lookup(s.push((key, v)), k) == lookup(s, k),
        unique_keys(s.push((key, v))),
{
    let s2 = s.push((key, v));
    assert(s2[s.len() as int] == (key, v));
    lemma_lookup_at(s2, s.len() as int);
    if k != key {
        match lookup(s, k) {
            Some(_) => {
                lemma_lookup_some_index(s, k);
                let j = choose|j: int|
                    0 <= j < s.len() && s[j].0 == k && #[trigger] s[j].1 == lookup(s, k)->Some_0;
                lemma_lookup_at(s2, j);
            },
            None => {
                assert forall|j: int| 0 <= j < s.len() implies s[j].0 != k by {
                    if s[j].0 == k {
                        lemma_lookup_at(s, j);
                    }
                }
                lemma_lookup_absent(s2, k);
            },
        }
    }
}

} // verus!
