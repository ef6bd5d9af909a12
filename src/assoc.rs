//! Association lists: sequences of named values whose names are distinct,
//! read as maps from name to value.
use vstd::prelude::*;

verus! {

/// No two positions of `s` carry the same name.
pub open spec fn keys_unique<V>(s: Seq<(Seq<char>, V)>) -> bool {
    forall|i: int, j: int|
        0 <= i < s.len() && 0 <= j < s.len() && i != j ==> #[trigger] s[i].0 != #[trigger] s[j].0
}

/// The map that an association list describes: each name to its value.
pub open spec fn to_map<V>(s: Seq<(Seq<char>, V)>) -> Map<Seq<char>, V>
    decreases s.len(),
{
    if s.len() == 0 {
        Map::empty()
    } else {
        to_map(s.drop_last()).insert(s.last().0, s.last().1)
    }
}

/// Dropping the last pair keeps the names distinct.
pub proof fn lemma_unique_drop_last<V>(s: Seq<(Seq<char>, V)>)
    requires
        keys_unique(s),
        s.len() > 0,
    ensures
        keys_unique(s.drop_last()),
{
    let t = s.drop_last();
    assert forall|i: int, j: int|
        0 <= i < t.len() && 0 <= j < t.len() && i != j implies #[trigger] t[i].0
        != #[trigger] t[j].0 by {
        assert(t[i] == s[i] && t[j] == s[j]);
    }
}

/// A name is a key of the map exactly when some position carries it.
pub proof fn lemma_to_map_dom<V>(s: Seq<(Seq<char>, V)>, k: Seq<char>)
    ensures
        to_map(s).contains_key(k) <==> exists|i: int| 0 <= i < s.len() && s[i].0 == k,
    decreases s.len(),
{
    if s.len() > 0 {
        let t = s.drop_last();
        lemma_to_map_dom(t, k);
        if to_map(s).contains_key(k) && k != s.last().0 {
            let i = choose|i: int| 0 <= i < t.len() && t[i].0 == k;
            assert(s[i].0 == k);
        }
        if exists|i: int| 0 <= i < s.len() && s[i].0 == k {
            let i = choose|i: int| 0 <= i < s.len() && s[i].0 == k;
            if i < s.len() - 1 {
                assert(t[i].0 == k);
            }
        }
    }
}

/// The value at a position is what the map gives for its name.
pub proof fn lemma_to_map_index<V>(s: Seq<(Seq<char>, V)>, i: int)
    requires
        keys_unique(s),
        0 <= i < s.len(),
    ensures
        to_map(s).contains_key(s[i].0),
        to_map(s)[s[i].0] == s[i].1,
    decreases s.len(),
{
    if i < s.len() - 1 {
        let t = s.drop_last();
        lemma_unique_drop_last(s);
        lemma_to_map_index(t, i);
        assert(t[i] == s[i]);
        assert(s[s.len() - 1].0 != s[i].0);
    }
}

/// Adding a pair under a fresh name inserts it into the map.
pub proof fn lemma_to_map_push<V>(s: Seq<(Seq<char>, V)>, k: Seq<char>, v: V)
    requires
        keys_unique(s),
        !to_map(s).contains_key(k),
    ensures
        keys_unique(s.push((k, v))),
        to_map(s.push((k, v))) == to_map(s).insert(k, v),
{
    let u = s.push((k, v));
    lemma_to_map_dom(s, k);
    assert forall|i: int, j: int|
        0 <= i < u.len() && 0 <= j < u.len() && i != j implies #[trigger] u[i].0
        != #[trigger] u[j].0 by {
        if i < s.len() && j < s.len() {
            assert(u[i] == s[i] && u[j] == s[j]);
        } else if i < s.len() {
            assert(u[i] == s[i]);
        } else if j < s.len() {
            assert(u[j] == s[j]);
        }
    }
    assert(u.drop_last() =~= s);
}

/// Changing the value at a position changes the map at that name alone.
pub proof fn lemma_to_map_update<V>(s: Seq<(Seq<char>, V)>, i: int, v: V)
    requires
        keys_unique(s),
        0 <= i < s.len(),
    ensures
        keys_unique(s.update(i, (s[i].0, v))),
        to_map(s.update(i, (s[i].0, v))) == to_map(s).insert(s[i].0, v),
    decreases s.len(),
{
    let u = s.update(i, (s[i].0, v));
    assert forall|a: int, b: int|
        0 <= a < u.len() && 0 <= b < u.len() && a != b implies #[trigger] u[a].0
        != #[trigger] u[b].0 by {
        assert(u[a].0 == s[a].0 && u[b].0 == s[b].0);
    }
    if i == s.len() - 1 {
        assert(u.drop_last() =~= s.drop_last());
        assert(to_map(u) =~= to_map(s).insert(s[i].0, v));
    } else {
        let t = s.drop_last();
        lemma_unique_drop_last(s);
        lemma_to_map_update(t, i, v);
        assert(u.drop_last() =~= t.update(i, (t[i].0, v)));
        assert(s[s.len() - 1].0 != s[i].0);
        assert(to_map(u) =~= to_map(s).insert(s[i].0, v));
    }
}

/// Taking out a position takes its name out of the map.
pub proof fn lemma_to_map_remove<V>(s: Seq<(Seq<char>, V)>, i: int)
    requires
        keys_unique(s),
        0 <= i < s.len(),
    ensures
        keys_unique(s.remove(i)),
        to_map(s.remove(i)) == to_map(s).remove(s[i].0),
    decreases s.len(),
{
    let r = s.remove(i);
    assert forall|a: int, b: int|
        0 <= a < r.len() && 0 <= b < r.len() && a != b implies #[trigger] r[a].0
        != #[trigger] r[b].0 by {
        let a2 = if a < i { a } else { a + 1 };
        let b2 = if b < i { b } else { b + 1 };
        assert(r[a] == s[a2] && r[b] == s[b2]);
    }
    let k = s[i].0;
    if i == s.len() - 1 {
        assert(r =~= s.drop_last());
        lemma_unique_drop_last(s);
        lemma_to_map_dom(s.drop_last(), k);
        assert forall|j: int| 0 <= j < s.drop_last().len() implies s.drop_last()[j].0 != k by {
            assert(s.drop_last()[j] == s[j]);
        }
        assert(to_map(r) =~= to_map(s).remove(k));
    } else {
        let t = s.drop_last();
        lemma_unique_drop_last(s);
        lemma_to_map_remove(t, i);
        assert(r.drop_last() =~= t.remove(i));
        assert(r.last() == s.last());
        assert(s[s.len() - 1].0 != k);
        assert(to_map(r) =~= to_map(s).remove(k));
    }
}

} // verus!
