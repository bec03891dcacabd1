//! A small association-list model: a vector of string-keyed pairs viewed
//! as a map, later entries winning. The storage layer keeps its records
//! in this shape.

use vstd::prelude::*;

verus! {

/// The map a sequence of keyed pairs denotes; a later pair for the same
/// key wins.
pub open spec fn kv_map<V>(s: Seq<(String, V)>) -> Map<Seq<char>, V>
    decreases s.len(),
{
    if s.len() == 0 {
        Map::empty()
    } else {
        kv_map(s.drop_last()).insert(s.last().0@, s.last().1)
    }
}

/// Keys are unique along the vector.
pub open spec fn kv_distinct<V>(s: Seq<(String, V)>) -> bool {
    forall|a: int, b: int| 0 <= a < b < s.len() ==> s[a].0@ != s[b].0@
}

/// A pair whose key has no later duplicate gives the map's value.
pub proof fn lemma_kv_get<V>(s: Seq<(String, V)>, k: Seq<char>, j: int)
    requires
        0 <= j < s.len(),
        s[j].0@ == k,
        forall|l: int| j < l < s.len() ==> s[l].0@ != k,
    ensures
        kv_map(s).contains_key(k),
        kv_map(s)[k] == s[j].1,
    decreases s.len(),
{
    if j == s.len() - 1 {
    } else {
        lemma_kv_get(s.drop_last(), k, j);
    }
}

/// A key on no pair is not in the map.
pub proof fn lemma_kv_none<V>(s: Seq<(String, V)>, k: Seq<char>)
    requires
        forall|l: int| 0 <= l < s.len() ==> s[l].0@ != k,
    ensures
        !kv_map(s).contains_key(k),
    decreases s.len(),
{
    if s.len() > 0 {
        lemma_kv_none(s.drop_last(), k);
    }
}

/// With distinct keys, updating the one pair for a key is a map insert.
pub proof fn lemma_kv_update<V>(s: Seq<(String, V)>, i: int, p: (String, V))
    requires
        0 <= i < s.len(),
        s[i].0@ == p.0@,
        kv_distinct(s),
    ensures
        kv_map(s.update(i, p)) == kv_map(s).insert(p.0@, p.1),
    decreases s.len(),
{
    let t = s.update(i, p);
    if i == s.len() - 1 {
        assert(t.drop_last() =~= s.drop_last());
        assert(t.last() == p);
        assert(kv_map(s.drop_last()).insert(s.last().0@, s.last().1).insert(p.0@, p.1)
            =~= kv_map(s.drop_last()).insert(p.0@, p.1));
    } else {
        assert(t.drop_last() =~= s.drop_last().update(i, p));
        lemma_kv_update(s.drop_last(), i, p);
        assert(t.last() == s.last());
        assert(s.last().0@ != p.0@);
        assert(kv_map(s.drop_last()).insert(p.0@, p.1).insert(s.last().0@, s.last().1)
            =~= kv_map(s.drop_last()).insert(s.last().0@, s.last().1).insert(p.0@, p.1));
    }
}

/// With distinct keys, removing the one pair for a key is a map remove.
pub proof fn lemma_kv_remove<V>(s: Seq<(String, V)>, i: int)
    requires
        0 <= i < s.len(),
        kv_distinct(s),
    ensures
        kv_map(s.remove(i)) == kv_map(s).remove(s[i].0@),
    decreases s.len(),
{
    let t = s.remove(i);
    if i == s.len() - 1 {
        assert(t =~= s.drop_last());
        lemma_kv_none_later(s, i);
        assert(!kv_map(s.drop_last()).contains_key(s[i].0@)) by {
            lemma_kv_none(s.drop_last(), s[i].0@);
        }
        assert(kv_map(s.drop_last()).insert(s.last().0@, s.last().1).remove(s[i].0@)
            =~= kv_map(s.drop_last()));
    } else {
        assert(t.drop_last() =~= s.drop_last().remove(i));
        lemma_kv_remove(s.drop_last(), i);
        assert(t.last() == s.last());
        assert(s.last().0@ != s[i].0@);
        assert(kv_map(s.drop_last()).remove(s[i].0@).insert(s.last().0@, s.last().1)
            =~= kv_map(s.drop_last()).insert(s.last().0@, s.last().1).remove(s[i].0@));
    }
}

proof fn lemma_kv_none_later<V>(s: Seq<(String, V)>, i: int)
    requires
        0 <= i < s.len(),
        kv_distinct(s),
    ensures
        forall|l: int| 0 <= l < s.len() && l != i ==> s[l].0@ != s[i].0@,
{
}

/// A present key's value comes from a pair carrying that key.
pub proof fn lemma_kv_key_of_value<V>(s: Seq<(String, V)>, k: Seq<char>)
    requires
        kv_map(s).contains_key(k),
    ensures
        exists|j: int| 0 <= j < s.len() && (#[trigger] s[j].0)@ == k && s[j].1 == kv_map(s)[k],
    decreases s.len(),
{
    if s.len() > 0 {
        if s.last().0@ == k && kv_map(s)[k] == s.last().1 {
            assert(0 <= s.len() - 1 < s.len() && s[s.len() - 1].0@ == k && s[s.len() - 1].1
                == kv_map(s)[k]);
        } else {
            lemma_kv_key_of_value(s.drop_last(), k);
            let j = choose|j: int|
                0 <= j < s.drop_last().len() && (#[trigger] s.drop_last()[j].0)@ == k
                    && s.drop_last()[j].1 == kv_map(s.drop_last())[k];
            assert(s[j] == s.drop_last()[j]);
            assert(s[j].0@ == k && s[j].1 == kv_map(s)[k]);
        }
    }
}

/// The values of the pairs, in order.
pub open spec fn kv_values<V>(s: Seq<(String, V)>) -> Seq<V> {
    s.map_values(|p: (String, V)| p.1)
}

} // verus!
