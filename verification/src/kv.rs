//! Ghost association lists.
//!
//! The store keeps each namespace as a vector of keyed records; [`kv_map`]
//! folds such a sequence of key/value pairs into the `Map` the contracts
//! speak of, and the lemmas here relate the vector edits the store performs
//! to `insert` and `remove` on that map.

use vstd::prelude::*;

verus! {

/// The map a sequence of key/value pairs denotes (later pairs win, which
/// never matters here: the store keeps keys distinct).
pub open spec fn kv_map<V>(s: Seq<(Seq<char>, V)>) -> Map<Seq<char>, V>
    decreases s.len(),
{
    if s.len() == 0 {
        Map::empty()
    } else {
        kv_map(s.drop_last()).insert(s.last().0, s.last().1)
    }
}

/// Some pair of `s` carries the key `k`.
pub open spec fn kv_has_key<V>(s: Seq<(Seq<char>, V)>, k: Seq<char>) -> bool {
    exists|i: int| 0 <= i < s.len() && (#[trigger] s[i]).0 == k
}

/// No two pairs of `s` share a key.
pub open spec fn kv_distinct<V>(s: Seq<(Seq<char>, V)>) -> bool {
    forall|i: int, j: int| 0 <= i < j < s.len() ==> (#[trigger] s[i]).0 != (#[trigger] s[j]).0
}

/// The domain of the denoted map holds exactly the keys of the pairs.
pub proof fn lemma_kv_map_dom<V>(s: Seq<(Seq<char>, V)>)
    ensures
        forall|k: Seq<char>| #[trigger] kv_map(s).contains_key(k) <==> kv_has_key(s, k),
    decreases s.len(),
{
    if s.len() == 0 {
    } else {
        let t = s.drop_last();
        lemma_kv_map_dom(t);
        assert(kv_map(s) == kv_map(t).insert(s.last().0, s.last().1));
        assert forall|k: Seq<char>| #[trigger] kv_map(s).contains_key(k) <==> kv_has_key(s, k) by {
            if kv_map(s).contains_key(k) {
                if k == s.last().0 {
                    assert(s[s.len() - 1].0 == k);
                } else {
                    assert(kv_map(t).contains_key(k));
                    assert(kv_has_key(t, k));
                    let i = choose|i: int| 0 <= i < t.len() && (#[trigger] t[i]).0 == k;
                    assert(t[i] == s[i]);
                    assert(s[i].0 == k);
                }
            }
            if kv_has_key(s, k) {
                let i = choose|i: int| 0 <= i < s.len() && (#[trigger] s[i]).0 == k;
                if i < s.len() - 1 {
                    assert(t[i] == s[i]);
                    assert(kv_has_key(t, k));
                } else {
                    assert(k == s.last().0);
                }
            }
        }
    }
}

/// Each pair of a distinct-keyed sequence is in the denoted map.
pub proof fn lemma_kv_map_index<V>(s: Seq<(Seq<char>, V)>, i: int)
    requires
        kv_distinct(s),
        0 <= i < s.len(),
    ensures
        kv_map(s).contains_key(s[i].0),
        kv_map(s)[s[i].0] == s[i].1,
    decreases s.len(),
{
    let t = s.drop_last();
    if i == s.len() - 1 {
    } else {
        assert(kv_distinct(t)) by {
            assert(forall|x: int, y: int|
                0 <= x < y < t.len() ==> (#[trigger] t[x]).0 == s[x].0 && (#[trigger] t[y]).0
                    == s[y].0);
        }
        lemma_kv_map_index(t, i);
        assert(s[i].0 != s.last().0);
    }
}

/// Putting a pair with a fresh key anywhere in the sequence inserts it into
/// the denoted map.
pub proof fn lemma_kv_map_insert<V>(s: Seq<(Seq<char>, V)>, i: int, k: Seq<char>, v: V)
    requires
        0 <= i <= s.len(),
        !kv_has_key(s, k),
    ensures
        kv_map(s.insert(i, (k, v))) == kv_map(s).insert(k, v),
    decreases s.len(),
{
    let n = s.insert(i, (k, v));
    if i == s.len() {
        assert(n.drop_last() =~= s);
        assert(n.last() == (k, v));
    } else {
        let t = s.drop_last();
        assert(!kv_has_key(t, k)) by {
            if kv_has_key(t, k) {
                let j = choose|j: int| 0 <= j < t.len() && (#[trigger] t[j]).0 == k;
                assert(s[j].0 == k);
            }
        }
        lemma_kv_map_insert(t, i, k, v);
        assert(n.drop_last() =~= t.insert(i, (k, v)));
        assert(n.last() == s.last());
        assert(k != s.last().0) by {
            assert(s[s.len() - 1].0 == s.last().0);
        }
        assert(kv_map(t).insert(k, v).insert(s.last().0, s.last().1) =~= kv_map(t).insert(
            s.last().0,
            s.last().1,
        ).insert(k, v));
    }
}

/// Replacing the value of the pair at `i` updates its key in the denoted
/// map.
pub proof fn lemma_kv_map_update<V>(s: Seq<(Seq<char>, V)>, i: int, v: V)
    requires
        kv_distinct(s),
        0 <= i < s.len(),
    ensures
        kv_map(s.update(i, (s[i].0, v))) == kv_map(s).insert(s[i].0, v),
    decreases s.len(),
{
    let n = s.update(i, (s[i].0, v));
    let t = s.drop_last();
    if i == s.len() - 1 {
        assert(n.drop_last() =~= t);
        assert(kv_map(t).insert(s[i].0, s[i].1).insert(s[i].0, v) =~= kv_map(t).insert(s[i].0, v));
    } else {
        assert(kv_distinct(t)) by {
            assert(forall|x: int, y: int|
                0 <= x < y < t.len() ==> (#[trigger] t[x]).0 == s[x].0 && (#[trigger] t[y]).0
                    == s[y].0);
        }
        lemma_kv_map_update(t, i, v);
        assert(n.drop_last() =~= t.update(i, (s[i].0, v)));
        assert(n.last() == s.last());
        assert(s[i].0 != s.last().0);
        assert(kv_map(t).insert(s[i].0, v).insert(s.last().0, s.last().1) =~= kv_map(t).insert(
            s.last().0,
            s.last().1,
        ).insert(s[i].0, v));
    }
}

/// Taking the pair at `i` out of the sequence removes its key from the
/// denoted map.
pub proof fn lemma_kv_map_remove<V>(s: Seq<(Seq<char>, V)>, i: int)
    requires
        kv_distinct(s),
        0 <= i < s.len(),
    ensures
        kv_map(s.remove(i)) == kv_map(s).remove(s[i].0),
    decreases s.len(),
{
    let n = s.remove(i);
    let t = s.drop_last();
    if i == s.len() - 1 {
        assert(n =~= t);
        assert(!kv_has_key(t, s[i].0)) by {
            if kv_has_key(t, s[i].0) {
                let j = choose|j: int| 0 <= j < t.len() && (#[trigger] t[j]).0 == s[i].0;
                assert(s[j].0 == s[i].0);
            }
        }
        lemma_kv_map_dom(t);
        assert(kv_map(t).insert(s[i].0, s[i].1).remove(s[i].0) =~= kv_map(t));
    } else {
        assert(kv_distinct(t)) by {
            assert(forall|x: int, y: int|
                0 <= x < y < t.len() ==> (#[trigger] t[x]).0 == s[x].0 && (#[trigger] t[y]).0
                    == s[y].0);
        }
        lemma_kv_map_remove(t, i);
        assert(n.drop_last() =~= t.remove(i));
        assert(n.last() == s.last());
        assert(s[i].0 != s.last().0);
        assert(kv_map(t).remove(s[i].0).insert(s.last().0, s.last().1) =~= kv_map(t).insert(
            s.last().0,
            s.last().1,
        ).remove(s[i].0));
    }
}

} // verus!
