//! Lookup machinery for sequences of records addressed by an integer key.
//!
//! The ledger-style entities of this crate (projects, jurors, commitments,
//! profiles, shares) live in vectors whose elements carry their own key.
//! This module gives such vectors a spec-level map reading (`has_key`,
//! `by_key`) and the lemmas that relate it to point updates.

use vstd::prelude::*;

verus! {

/// A record addressed by an integer key of its own.
pub trait Keyed: Sized {
    /// The record's key.
    spec fn key(&self) -> u64;

    /// Returns the record's key.
    fn key_of(&self) -> (k: u64)
        ensures
            k == self.key(),
    ;
}

/// No two records share a key.
pub open spec fn keys_unique<T: Keyed>(s: Seq<T>) -> bool {
    forall|i: int, j: int|
        #![trigger s[i].key(), s[j].key()]
        0 <= i < j < s.len() ==> s[i].key() != s[j].key()
}

/// Some record carries key `k`.
pub open spec fn has_key<T: Keyed>(s: Seq<T>, k: u64) -> bool {
    exists|i: int| 0 <= i < s.len() && (#[trigger] s[i].key()) == k
}

/// The record carrying key `k` (meaningful only when `has_key` holds and
/// the keys are unique).
pub open spec fn by_key<T: Keyed>(s: Seq<T>, k: u64) -> T {
    s[choose|i: int| 0 <= i < s.len() && (#[trigger] s[i].key()) == k]
}

/// Under unique keys, the record at index `i` is what `by_key` returns for
/// its key.
pub proof fn lemma_key_at<T: Keyed>(s: Seq<T>, i: int)
    requires
        keys_unique(s),
        0 <= i < s.len(),
    ensures
        has_key(s, s[i].key()),
        by_key(s, s[i].key()) == s[i],
{
    let k = s[i].key();
    assert(0 <= i < s.len() && s[i].key() == k);
    let j = choose|j: int| 0 <= j < s.len() && (#[trigger] s[j].key()) == k;
    if j != i {
        if j < i {
            assert(s[j].key() != s[i].key());
        } else {
            assert(s[i].key() != s[j].key());
        }
    }
}

/// Replacing the record at index `i` by one with the same key keeps the
/// keys unique, keeps every other record in place, and makes `by_key`
/// return the new record for that key.
pub proof fn lemma_key_update<T: Keyed>(s: Seq<T>, i: int, v: T)
    requires
        keys_unique(s),
        0 <= i < s.len(),
        v.key() == s[i].key(),
    ensures
        keys_unique(s.update(i, v)),
        forall|k: u64| #[trigger] has_key(s.update(i, v), k) == has_key(s, k),
        forall|k: u64|
            k != v.key() && has_key(s, k) ==> #[trigger] by_key(s.update(i, v), k) == by_key(s, k),
        by_key(s.update(i, v), v.key()) == v,
{
    let s2 = s.update(i, v);
    assert forall|a: int, b: int| 0 <= a < b < s2.len() implies s2[a].key() != s2[b].key() by {
        assert(s[a].key() != s[b].key());
        assert(s2[a].key() == s[a].key() && s2[b].key() == s[b].key());
    }
    assert forall|k: u64| #[trigger] has_key(s2, k) == has_key(s, k) by {
        if has_key(s, k) {
            let n = choose|n: int| 0 <= n < s.len() && (#[trigger] s[n].key()) == k;
            assert(s2[n].key() == k);
        }
        if has_key(s2, k) {
            let n = choose|n: int| 0 <= n < s2.len() && (#[trigger] s2[n].key()) == k;
            assert(s[n].key() == k);
        }
    }
    assert forall|k: u64| k != v.key() && has_key(s, k) implies #[trigger] by_key(s2, k)
        == by_key(s, k) by {
        let n = choose|n: int| 0 <= n < s.len() && (#[trigger] s[n].key()) == k;
        assert(s2[n].key() == k);
        lemma_key_at(s, n);
        lemma_key_at(s2, n);
    }
    assert(by_key(s2, v.key()) == v) by {
        lemma_key_at(s2, i);
    }
}

/// Appending a record with a fresh key keeps the keys unique, keeps every
/// earlier record in place, and makes the new key present.
pub proof fn lemma_key_push<T: Keyed>(s: Seq<T>, v: T)
    requires
        keys_unique(s),
        !has_key(s, v.key()),
    ensures
        keys_unique(s.push(v)),
        forall|k: u64| #[trigger] has_key(s.push(v), k) == (has_key(s, k) || k == v.key()),
        forall|k: u64|
            k != v.key() && has_key(s, k) ==> #[trigger] by_key(s.push(v), k) == by_key(s, k),
        by_key(s.push(v), v.key()) == v,
{
    let s2 = s.push(v);
    assert forall|a: int, b: int| 0 <= a < b < s2.len() implies s2[a].key() != s2[b].key() by {
        if b < s.len() {
            assert(s[a].key() != s[b].key());
        } else {
            assert(s2[b] == v);
            assert(s2[a] == s[a]);
            if s[a].key() == v.key() {
                assert(0 <= a < s.len() && s[a].key() == v.key());
            }
        }
        assert(s2[a].key() == if a < s.len() { s[a].key() } else { v.key() });
    }
    assert forall|k: u64| #[trigger] has_key(s2, k) == (has_key(s, k) || k == v.key()) by {
        if has_key(s, k) {
            let n = choose|n: int| 0 <= n < s.len() && (#[trigger] s[n].key()) == k;
            assert(s2[n].key() == k);
        }
        if k == v.key() {
            assert(s2[s.len() as int].key() == k);
        }
        if has_key(s2, k) {
            let n = choose|n: int| 0 <= n < s2.len() && (#[trigger] s2[n].key()) == k;
            if n < s.len() {
                assert(s[n].key() == k);
            }
        }
    }
    assert forall|k: u64| k != v.key() && has_key(s, k) implies #[trigger] by_key(s2, k)
        == by_key(s, k) by {
        let n = choose|n: int| 0 <= n < s.len() && (#[trigger] s[n].key()) == k;
        assert(s2[n].key() == k);
        lemma_key_at(s, n);
        lemma_key_at(s2, n);
    }
    assert(by_key(s2, v.key()) == v) by {
        lemma_key_at(s2, s.len() as int);
    }
}

/// Removing the record at index `i` keeps the keys unique, drops exactly
/// that record's key, and keeps every other record reachable unchanged.
pub proof fn lemma_key_remove<T: Keyed>(s: Seq<T>, i: int)
    requires
        keys_unique(s),
        0 <= i < s.len(),
    ensures
        keys_unique(s.remove(i)),
        forall|k: u64|
            #[trigger] has_key(s.remove(i), k) == (has_key(s, k) && k != s[i].key()),
        forall|k: u64|
            k != s[i].key() && has_key(s, k) ==> #[trigger] by_key(s.remove(i), k)
                == by_key(s, k),
{
    let s2 = s.remove(i);
    let shift = |n: int| if n < i { n } else { n + 1 };
    assert forall|a: int, b: int| 0 <= a < b < s2.len() implies s2[a].key() != s2[b].key() by {
        assert(s2[a] == s[shift(a)] && s2[b] == s[shift(b)]);
        assert(s[shift(a)].key() != s[shift(b)].key());
    }
    assert forall|k: u64|
        #[trigger] has_key(s2, k) == (has_key(s, k) && k != s[i].key()) by {
        if has_key(s2, k) {
            let n = choose|n: int| 0 <= n < s2.len() && (#[trigger] s2[n].key()) == k;
            assert(s2[n] == s[shift(n)]);
            assert(s[shift(n)].key() == k);
            if s[i].key() == k {
                if shift(n) < i {
                    assert(s[shift(n)].key() != s[i].key());
                } else {
                    assert(s[i].key() != s[shift(n)].key());
                }
            }
        }
        if has_key(s, k) && k != s[i].key() {
            let n = choose|n: int| 0 <= n < s.len() && (#[trigger] s[n].key()) == k;
            if n < i {
                assert(s2[n].key() == k);
            } else {
                assert(n != i);
                assert(s2[n - 1].key() == k);
            }
        }
    }
    assert forall|k: u64| k != s[i].key() && has_key(s, k) implies #[trigger] by_key(s2, k)
        == by_key(s, k) by {
        let n = choose|n: int| 0 <= n < s.len() && (#[trigger] s[n].key()) == k;
        lemma_key_at(s, n);
        if n < i {
            assert(s2[n].key() == k);
            lemma_key_at(s2, n);
        } else {
            assert(n != i);
            assert(s2[n - 1].key() == k);
            lemma_key_at(s2, n - 1);
        }
    }
}

/// Finds the index of the record carrying key `k`, if any.
pub fn find_by_key<T: Keyed>(v: &Vec<T>, k: u64) -> (r: Option<usize>)
    ensures
        match r {
            Some(i) => i < v.len() && v@[i as int].key() == k && has_key(v@, k),
            None => !has_key(v@, k),
        },
{
    let mut idx: usize = 0;
    while idx < v.len()
        invariant
            idx <= v.len(),
            forall|n: int| 0 <= n < idx ==> (#[trigger] v@[n].key()) != k,
        decreases v.len() - idx,
    {
        if v[idx].key_of() == k {
            return Some(idx);
        }
        idx += 1;
    }
    None
}

} // verus!
