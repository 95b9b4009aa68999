//! Lists of keyed entries read as finite maps.
//!
//! The coordinator stores its sessions and rooms in vectors, one entry per
//! key. This module says which map such a list stands for and how the map
//! changes when an entry is appended, replaced or taken out.

use vstd::prelude::*;

verus! {

/// Some entry of `s` has the key `k`.
pub open spec fn has_key<V>(s: Seq<(Seq<char>, V)>, k: Seq<char>) -> bool {
    exists|i: int| 0 <= i < s.len() && (#[trigger] s[i]).0 == k
}

/// The position of an entry with the key `k`, if there is one.
pub open spec fn index_of_key<V>(s: Seq<(Seq<char>, V)>, k: Seq<char>) -> int {
    choose|i: int| 0 <= i < s.len() && (#[trigger] s[i]).0 == k
}

/// No key occurs twice in `s`.
pub open spec fn distinct_keys<V>(s: Seq<(Seq<char>, V)>) -> bool {
    forall|i: int, j: int| 0 <= i < j < s.len() ==> (#[trigger] s[i]).0 != (#[trigger] s[j]).0
}

/// The map that `s` stands for.
pub open spec fn to_map<V>(s: Seq<(Seq<char>, V)>) -> Map<Seq<char>, V> {
    Map::new(|k: Seq<char>| has_key(s, k), |k: Seq<char>| s[index_of_key(s, k)].1)
}

/// The entry at position `i` is what the map holds under its key.
pub proof fn lemma_entry<V>(s: Seq<(Seq<char>, V)>, i: int)
    requires
        distinct_keys(s),
        0 <= i < s.len(),
    ensures
        has_key(s, s[i].0),
        index_of_key(s, s[i].0) == i,
        to_map(s).contains_key(s[i].0),
        to_map(s)[s[i].0] == s[i].1,
{
    let k = s[i].0;
    let j = index_of_key(s, k);
    assert(0 <= j < s.len() && s[j].0 == k);
    if j < i {
        assert(s[j].0 != s[i].0);
    } else if i < j {
        assert(s[i].0 != s[j].0);
    }
}

/// A key of the map is the key of some entry, and only of one.
pub proof fn lemma_key<V>(s: Seq<(Seq<char>, V)>, k: Seq<char>)
    requires
        has_key(s, k),
    ensures
        0 <= index_of_key(s, k) < s.len(),
        s[index_of_key(s, k)].0 == k,
        to_map(s).contains_key(k),
        to_map(s)[k] == s[index_of_key(s, k)].1,
{
}

/// Appending an entry under a new key inserts it into the map.
pub proof fn lemma_push<V>(s: Seq<(Seq<char>, V)>, k: Seq<char>, v: V)
    requires
        distinct_keys(s),
        !has_key(s, k),
    ensures
        distinct_keys(s.push((k, v))),
        to_map(s.push((k, v))) == to_map(s).insert(k, v),
{
    let t = s.push((k, v));
    assert forall|i: int, j: int| 0 <= i < j < t.len() implies (#[trigger] t[i]).0 != (
    #[trigger] t[j]).0 by {
        if j < s.len() {
            assert(s[i].0 != s[j].0);
        } else {
            assert(t[i] == s[i]);
            assert(t[j].0 == k);
        }
    }
    assert forall|q: Seq<char>| #[trigger] has_key(t, q) <==> (q == k || has_key(s, q)) by {
        if has_key(t, q) {
            let i = index_of_key(t, q);
            if i < s.len() {
                assert(s[i].0 == q);
            }
        }
        if q == k {
            assert(t[s.len() as int].0 == k);
        }
        if has_key(s, q) {
            let i = index_of_key(s, q);
            assert(t[i].0 == q);
        }
    }
    assert forall|q: Seq<char>| #[trigger] has_key(t, q) implies to_map(t)[q] == to_map(s).insert(
        k,
        v,
    )[q] by {
        let i = index_of_key(t, q);
        lemma_entry(t, i);
        if q != k {
            let j = index_of_key(s, q);
            assert(t[j] == s[j]);
            lemma_entry(t, j);
        } else {
            lemma_entry(t, s.len() as int);
        }
    }
    assert(to_map(t) =~= to_map(s).insert(k, v));
}

/// Replacing the value of the entry at `i` overwrites it in the map.
pub proof fn lemma_update<V>(s: Seq<(Seq<char>, V)>, i: int, v: V)
    requires
        distinct_keys(s),
        0 <= i < s.len(),
    ensures
        distinct_keys(s.update(i, (s[i].0, v))),
        to_map(s.update(i, (s[i].0, v))) == to_map(s).insert(s[i].0, v),
{
    let k = s[i].0;
    let t = s.update(i, (k, v));
    assert forall|a: int, b: int| 0 <= a < b < t.len() implies (#[trigger] t[a]).0 != (
    #[trigger] t[b]).0 by {
        assert(t[a].0 == s[a].0);
        assert(t[b].0 == s[b].0);
        assert(s[a].0 != s[b].0);
    }
    assert forall|q: Seq<char>| #[trigger] has_key(t, q) <==> has_key(s, q) by {
        if has_key(t, q) {
            let a = index_of_key(t, q);
            assert(s[a].0 == q);
        }
        if has_key(s, q) {
            let a = index_of_key(s, q);
            assert(t[a].0 == q);
        }
    }
    lemma_entry(s, i);
    assert forall|q: Seq<char>| #[trigger] has_key(t, q) implies to_map(t)[q] == to_map(s).insert(
        k,
        v,
    )[q] by {
        let a = index_of_key(t, q);
        lemma_entry(t, a);
        if q != k {
            let b = index_of_key(s, q);
            assert(t[b] == s[b]);
            lemma_entry(t, b);
        } else {
            lemma_entry(t, i);
        }
    }
    assert(to_map(t) =~= to_map(s).insert(k, v));
}

/// Taking the entry at `i` out removes its key from the map.
pub proof fn lemma_remove<V>(s: Seq<(Seq<char>, V)>, i: int)
    requires
        distinct_keys(s),
        0 <= i < s.len(),
    ensures
        distinct_keys(s.remove(i)),
        !has_key(s.remove(i), s[i].0),
        to_map(s.remove(i)) == to_map(s).remove(s[i].0),
{
    let k = s[i].0;
    let t = s.remove(i);
    assert forall|a: int| 0 <= a < t.len() implies #[trigger] t[a] == s[if a < i {
        a
    } else {
        a + 1
    }] by {}
    assert forall|a: int, b: int| 0 <= a < b < t.len() implies (#[trigger] t[a]).0 != (
    #[trigger] t[b]).0 by {
        let a1 = if a < i {
            a
        } else {
            a + 1
        };
        let b1 = if b < i {
            b
        } else {
            b + 1
        };
        assert(t[a] == s[a1]);
        assert(t[b] == s[b1]);
        assert(s[a1].0 != s[b1].0);
    }
    assert forall|q: Seq<char>| #[trigger] has_key(t, q) <==> (q != k && has_key(s, q)) by {
        if has_key(t, q) {
            let a = index_of_key(t, q);
            let a1 = if a < i {
                a
            } else {
                a + 1
            };
            assert(t[a] == s[a1]);
            assert(s[a1].0 == q);
            lemma_entry(s, a1);
            lemma_entry(s, i);
        }
        if q != k && has_key(s, q) {
            let b = index_of_key(s, q);
            let b1 = if b < i {
                b
            } else {
                b - 1
            };
            assert(t[b1] == s[b]);
            assert(t[b1].0 == q);
        }
    }
    assert forall|q: Seq<char>| #[trigger] has_key(t, q) implies to_map(t)[q] == to_map(s).remove(
        k,
    )[q] by {
        let a = index_of_key(t, q);
        let a1 = if a < i {
            a
        } else {
            a + 1
        };
        assert(t[a] == s[a1]);
        lemma_entry(s, a1);
    }
    assert(to_map(t) =~= to_map(s).remove(k));
}

/// The map of a list without repeated keys has as many keys as the list
/// has entries.
pub proof fn lemma_len<V>(s: Seq<(Seq<char>, V)>)
    requires
        distinct_keys(s),
    ensures
        to_map(s).dom().finite(),
        to_map(s).dom().len() == s.len(),
    decreases s.len(),
{
    if s.len() == 0 {
        assert(to_map(s).dom() =~= Set::<Seq<char>>::empty());
    } else {
        let t = s.drop_last();
        let last = s.last();
        assert forall|i: int, j: int| 0 <= i < j < t.len() implies (#[trigger] t[i]).0 != (
        #[trigger] t[j]).0 by {
            assert(s[i].0 != s[j].0);
        }
        lemma_len(t);
        if has_key(t, last.0) {
            let i = index_of_key(t, last.0);
            assert(s[i].0 != s[s.len() - 1].0);
        }
        assert(s =~= t.push((last.0, last.1)));
        lemma_push(t, last.0, last.1);
        assert(to_map(s).dom() =~= to_map(t).dom().insert(last.0));
    }
}

} // verus!
