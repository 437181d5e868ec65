//! A map keyed by text: the dictionaries of NetworkManager settings and of
//! the secret-agent protocol.
use vstd::prelude::*;

use crate::text::owned;

verus! {

/// The keys of an association list are pairwise different.
pub open spec fn distinct_keys<K, W>(s: Seq<(K, W)>) -> bool {
    forall|i: int, j: int| 0 <= i < j < s.len() ==> s[i].0 != s[j].0
}

/// The map that an association list stands for: a later pair overrides an
/// earlier one with the same key.
pub open spec fn map_of<K, W>(s: Seq<(K, W)>) -> Map<K, W>
    decreases s.len(),
{
    if s.len() == 0 {
        Map::empty()
    } else {
        map_of(s.drop_last()).insert(s.last().0, s.last().1)
    }
}

/// A key is in the map exactly when some pair carries it.
pub proof fn lemma_map_of_contains<K, W>(s: Seq<(K, W)>, k: K)
    ensures
        map_of(s).contains_key(k) <==> exists|i: int| 0 <= i < s.len() && s[i].0 == k,
    decreases s.len(),
{
    if s.len() > 0 {
        lemma_map_of_contains(s.drop_last(), k);
        if map_of(s).contains_key(k) && s.last().0 != k {
            let i = choose|i: int| 0 <= i < s.drop_last().len() && s.drop_last()[i].0 == k;
            assert(s[i].0 == k);
        }
        if exists|i: int| 0 <= i < s.len() && s[i].0 == k {
            let i = choose|i: int| 0 <= i < s.len() && s[i].0 == k;
            if i < s.len() - 1 {
                assert(s.drop_last()[i].0 == k);
            }
        }
    }
}

/// With distinct keys, the map holds each pair's value under its key.
pub proof fn lemma_map_of_at<K, W>(s: Seq<(K, W)>, i: int)
    requires
        distinct_keys(s),
        0 <= i < s.len(),
    ensures
        map_of(s).contains_key(s[i].0),
        map_of(s)[s[i].0] == s[i].1,
    decreases s.len(),
{
    if i < s.len() - 1 {
        assert(s.drop_last()[i] == s[i]);
        lemma_map_of_at(s.drop_last(), i);
    }
}

/// With distinct keys, the map has as many keys as the list has pairs.
pub proof fn lemma_map_of_len<K, W>(s: Seq<(K, W)>)
    requires
        distinct_keys(s),
    ensures
        map_of(s).dom().finite(),
        map_of(s).len() == s.len(),
    decreases s.len(),
{
    if s.len() > 0 {
        lemma_map_of_len(s.drop_last());
        lemma_map_of_contains(s.drop_last(), s.last().0);
        if map_of(s.drop_last()).contains_key(s.last().0) {
            let i = choose|i: int|
                0 <= i < s.drop_last().len() && s.drop_last()[i].0 == s.last().0;
            assert(s[i].0 == s[s.len() - 1].0);
        }
    }
}

/// Replacing the value of one pair replaces it in the map.
pub proof fn lemma_map_of_update<K, W>(s: Seq<(K, W)>, i: int, w: W)
    requires
        distinct_keys(s),
        0 <= i < s.len(),
    ensures
        map_of(s.update(i, (s[i].0, w))) == map_of(s).insert(s[i].0, w),
    decreases s.len(),
{
    let t = s.update(i, (s[i].0, w));
    if i == s.len() - 1 {
        assert(t.drop_last() =~= s.drop_last());
        lemma_map_of_contains(s.drop_last(), s[i].0);
        assert(map_of(t) =~= map_of(s).insert(s[i].0, w));
    } else {
        assert(t.drop_last() =~= s.drop_last().update(i, (s[i].0, w)));
        lemma_map_of_update(s.drop_last(), i, w);
        assert(map_of(t) =~= map_of(s).insert(s[i].0, w));
    }
}

/// Pairs of texts and values, taken by their views.
pub open spec fn pairs_of<V: DeepView>(v: Seq<(String, V)>) -> Seq<(Seq<char>, V::V)> {
    Seq::new(v.len(), |i: int| (v[i].0@, v[i].1.deep_view()))
}

/// A map from texts to values, kept as a list of pairs in insertion order
/// whose keys are pairwise different; its view is the map they spell.
pub struct StrMap<V: DeepView> {
    entries: Vec<(String, V)>,
}

impl<V: DeepView> StrMap<V> {
    /// The pairs of the map, keys and values taken by their views, in
    /// insertion order.
    pub closed spec fn pairs(&self) -> Seq<(Seq<char>, V::V)> {
        pairs_of(self.entries@)
    }

    #[verifier::type_invariant]
    closed spec fn keys_are_distinct(&self) -> bool {
        distinct_keys(self.pairs())
    }

    /// The empty map.
    pub fn new() -> (r: Self)
        ensures
            r@ == Map::<Seq<char>, V::V>::empty(),
    {
        let r = StrMap { entries: Vec::new() };
        assert(r.pairs() =~= Seq::<(Seq<char>, V::V)>::empty());
        r
    }

    /// The value stored under `key`, if any.
    pub fn get(&self, key: &str) -> (r: Option<&V>)
        ensures
            match r {
                Some(v) => self@.contains_key(key@) && v.deep_view() == self@[key@],
                None => !self@.contains_key(key@),
            },
    {
        proof {
            use_type_invariant(self);
        }
        let k = owned(key);
        let mut i: usize = 0;
        while i < self.entries.len()
            invariant
                i <= self.entries@.len(),
                k@ == key@,
                distinct_keys(self.pairs()),
                forall|t: int| 0 <= t < i ==> self.pairs()[t].0 != key@,
            decreases self.entries@.len() - i,
        {
            if self.entries[i].0 == k {
                proof {
                    lemma_map_of_at(self.pairs(), i as int);
                }
                return Some(&self.entries[i].1);
            }
            i = i + 1;
        }
        proof {
            lemma_map_of_contains(self.pairs(), key@);
        }
        None
    }

    /// Whether the map holds a value under `key`.
    pub fn contains_key(&self, key: &str) -> (r: bool)
        ensures
            r == self@.contains_key(key@),
    {
        self.get(key).is_some()
    }

    /// Stores `value` under `key`, replacing any value stored there before.
    pub fn insert(&mut self, key: String, value: V)
        ensures
            final(self)@ == old(self)@.insert(key@, value.deep_view()),
    {
        proof {
            use_type_invariant(&*self);
        }
        let ghost old_pairs = old(self).pairs();
        let mut es: Vec<(String, V)> = Vec::new();
        std::mem::swap(&mut es, &mut self.entries);
        assert(pairs_of(es@) =~= old_pairs);
        let mut i: usize = 0;
        while i < es.len()
            invariant
                i <= es@.len(),
                pairs_of(es@) == old_pairs,
                es@.len() == old_pairs.len(),
                old_pairs == old(self).pairs(),
                distinct_keys(old_pairs),
                forall|t: int| 0 <= t < i ==> old_pairs[t].0 != key@,
            decreases es@.len() - i,
        {
            if es[i].0 == key {
                let ghost vv = value.deep_view();
                assert(old_pairs[i as int].0 == key@);
                proof {
                    lemma_map_of_update(old_pairs, i as int, vv);
                    lemma_map_of_at(old_pairs, i as int);
                }
                es.set(i, (key, value));
                assert(pairs_of(es@) =~= old_pairs.update(i as int, (old_pairs[i as int].0, vv)));
                self.entries = es;
                assert(self.pairs() =~= pairs_of(es@));
                return ;
            }
            i = i + 1;
        }
        let ghost vv = value.deep_view();
        let ghost kv = key@;
        es.push((key, value));
        assert(pairs_of(es@) =~= old_pairs.push((kv, vv)));
        assert(old_pairs.push((kv, vv)).drop_last() =~= old_pairs);
        self.entries = es;
        assert(self.pairs() =~= pairs_of(es@));
    }

    /// The number of keys.
    pub fn len(&self) -> (r: usize)
        ensures
            r == self@.len(),
    {
        proof {
            use_type_invariant(self);
            lemma_map_of_len(self.pairs());
        }
        self.entries.len()
    }

    /// Whether the map holds no key.
    pub fn is_empty(&self) -> (r: bool)
        ensures
            r == (self@ == Map::<Seq<char>, V::V>::empty()),
    {
        proof {
            use_type_invariant(self);
            if self.pairs().len() > 0 {
                lemma_map_of_at(self.pairs(), 0);
            } else {
                assert(self@ =~= Map::<Seq<char>, V::V>::empty());
            }
        }
        self.entries.len() == 0
    }
}

impl<V: DeepView> View for StrMap<V> {
    type V = Map<Seq<char>, V::V>;

    closed spec fn view(&self) -> Map<Seq<char>, V::V> {
        map_of(self.pairs())
    }
}

impl<V: DeepView> DeepView for StrMap<V> {
    type V = Map<Seq<char>, V::V>;

    open spec fn deep_view(&self) -> Map<Seq<char>, V::V> {
        self@
    }
}

/// A read gives back the last value written under the same key, and a
/// write leaves every other key as it was: what `get` answers after
/// `insert`.
pub proof fn lemma_read_after_write<W>(m: Map<Seq<char>, W>, k: Seq<char>, v: W, other: Seq<char>)
    ensures
        m.insert(k, v).contains_key(k),
        m.insert(k, v)[k] == v,
        other != k ==> m.insert(k, v).contains_key(other) == m.contains_key(other),
        other != k && m.contains_key(other) ==> m.insert(k, v)[other] == m[other],
{
}

} // verus!
