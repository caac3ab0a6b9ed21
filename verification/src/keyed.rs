//! A small spec library for string-keyed association lists: what such a
//! list means as a `Map`, and how pushing or updating an entry changes that
//! meaning. The executable containers keep entries in insertion order (so
//! iteration is stable) and rely on these lemmas to speak map language in
//! their contracts.

use vstd::prelude::*;

verus! {

/// Whether some entry of `s` carries the key `k`.
pub open spec fn keyed_contains<T>(s: Seq<(String, T)>, k: Seq<char>) -> bool {
    exists|i: int| 0 <= i < s.len() && s[i].0@ == k
}

/// The index of the entry carrying `k`; meaningful when the keys are
/// distinct and `k` occurs.
pub open spec fn keyed_index<T>(s: Seq<(String, T)>, k: Seq<char>) -> int {
    choose|i: int| 0 <= i < s.len() && s[i].0@ == k
}

/// The keys of `s` are pairwise distinct.
pub open spec fn keyed_distinct<T>(s: Seq<(String, T)>) -> bool {
    forall|i: int, j: int| 0 <= i < j < s.len() ==> s[i].0@ != s[j].0@
}

/// The mapping `s` stands for, each value taken by its view.
pub open spec fn keyed_map<T: View>(s: Seq<(String, T)>) -> Map<Seq<char>, T::V> {
    Map::new(|k: Seq<char>| keyed_contains(s, k), |k: Seq<char>| s[keyed_index(s, k)].1@)
}

/// With distinct keys, the entry at `i` is found at `i`: the map carries its
/// key to its value.
pub proof fn lemma_keyed_at<T: View>(s: Seq<(String, T)>, i: int)
    requires
        keyed_distinct(s),
        0 <= i < s.len(),
    ensures
        keyed_contains(s, s[i].0@),
        keyed_index(s, s[i].0@) == i,
        keyed_map(s).contains_key(s[i].0@),
        keyed_map(s)[s[i].0@] == s[i].1@,
{
    assert(keyed_contains(s, s[i].0@));
    let w = keyed_index::<T>(s, s[i].0@);
    assert(0 <= w < s.len() && s[w].0@ == s[i].0@);
}

/// Appending an entry with a fresh key inserts it into the map and keeps
/// the keys distinct.
pub proof fn lemma_keyed_push<T: View>(s: Seq<(String, T)>, e: (String, T))
    requires
        keyed_distinct(s),
        !keyed_contains(s, e.0@),
    ensures
        keyed_distinct(s.push(e)),
        keyed_map(s.push(e)) =~= keyed_map(s).insert(e.0@, e.1@),
{
    let s1 = s.push(e);
    assert forall|i: int, j: int| 0 <= i < j < s1.len() implies s1[i].0@ != s1[j].0@ by {
        if j < s.len() {
            assert(s[i].0@ != s[j].0@);
        } else {
            assert(s1[i] == s[i]);
            if s1[i].0@ == e.0@ {
                assert(keyed_contains(s, e.0@));
            }
        }
    }
    assert forall|k: Seq<char>| keyed_contains(s1, k) implies (keyed_contains(s, k) || k
        == e.0@) by {
        let w = keyed_index::<T>(s1, k);
        if w < s.len() {
            assert(s[w].0@ == k);
        }
    }
    assert forall|k: Seq<char>| keyed_contains(s, k) implies keyed_contains(s1, k) by {
        let w = keyed_index::<T>(s, k);
        assert(s1[w].0@ == k);
    }
    assert(s1[s1.len() - 1].0@ == e.0@);
    assert(keyed_contains(s1, e.0@));
    assert forall|k: Seq<char>| keyed_contains(s1, k) implies keyed_map(s1)[k] == keyed_map(
        s,
    ).insert(e.0@, e.1@)[k] by {
        let w = keyed_index::<T>(s1, k);
        assert(0 <= w < s1.len() && s1[w].0@ == k);
        if k == e.0@ {
            if w < s.len() {
                assert(keyed_contains(s, k));
            }
            assert(w == s1.len() - 1);
        } else {
            assert(w < s.len());
            assert(s[w].0@ == k);
            let w0 = keyed_index::<T>(s, k);
            assert(0 <= w0 < s.len() && s[w0].0@ == k);
            assert(w0 == w);
        }
    }
}

/// Replacing the entry at `i` by one with the same key updates the map at
/// that key and keeps the keys distinct.
pub proof fn lemma_keyed_update<T: View>(s: Seq<(String, T)>, i: int, e: (String, T))
    requires
        keyed_distinct(s),
        0 <= i < s.len(),
        e.0@ == s[i].0@,
    ensures
        keyed_distinct(s.update(i, e)),
        keyed_map(s.update(i, e)) =~= keyed_map(s).insert(e.0@, e.1@),
{
    let s1 = s.update(i, e);
    assert forall|a: int, b: int| 0 <= a < b < s1.len() implies s1[a].0@ != s1[b].0@ by {
        assert(s[a].0@ != s[b].0@);
    }
    assert forall|k: Seq<char>| keyed_contains(s1, k) implies keyed_contains(s, k) by {
        let w = keyed_index::<T>(s1, k);
        if w == i {
            assert(s[i].0@ == k);
        } else {
            assert(s[w].0@ == k);
        }
    }
    assert forall|k: Seq<char>| keyed_contains(s, k) implies keyed_contains(s1, k) by {
        let w = keyed_index::<T>(s, k);
        if w == i {
            assert(s1[i].0@ == k);
        } else {
            assert(s1[w].0@ == k);
        }
    }
    assert forall|k: Seq<char>| keyed_contains(s1, k) implies keyed_map(s1)[k] == keyed_map(
        s,
    ).insert(e.0@, e.1@)[k] by {
        let w = keyed_index::<T>(s1, k);
        assert(0 <= w < s1.len() && s1[w].0@ == k);
        if k == e.0@ {
            if w != i {
                assert(s1[i].0@ == e.0@);
                assert(s1[w].0@ != s1[i].0@);
            }
            assert(w == i);
        } else {
            assert(w != i);
            assert(s[w].0@ == k);
            let w0 = keyed_index::<T>(s, k);
            assert(0 <= w0 < s.len() && s[w0].0@ == k);
            assert(w0 == w);
            assert(s1[w].1@ == s[w].1@);
        }
    }
}

} // verus!
