use vstd::prelude::*;

verus! {

/// The map that the pairs `s` describe, a later pair replacing an earlier
/// one of the same key.
pub open spec fn pairs_map<V: DeepView>(s: Seq<(String, V)>) -> Map<Seq<char>, V::V>
    decreases s.len(),
{
    if s.len() == 0 {
        Map::empty()
    } else {
        pairs_map(s.drop_last()).insert(s.last().0@, s.last().1.deep_view())
    }
}

/// Whether no two of the pairs `s` have the same key.
pub open spec fn keys_distinct<V>(s: Seq<(String, V)>) -> bool {
    forall|i: int, j: int| 0 <= i < j < s.len() ==> #[trigger] s[i].0@ != #[trigger] s[j].0@
}

/// The keys of `pairs_map(s)` are those of the pairs, and the map is finite.
pub proof fn lemma_pairs_map_dom<V: DeepView>(s: Seq<(String, V)>)
    ensures
        pairs_map(s).dom().finite(),
        forall|k: Seq<char>|
            pairs_map(s).dom().contains(k) <==> exists|i: int| 0 <= i < s.len() && #[trigger] s[i].0@ == k,
    decreases s.len(),
{
    if s.len() > 0 {
        lemma_pairs_map_dom(s.drop_last());
        assert forall|k: Seq<char>|
            pairs_map(s).dom().contains(k) implies exists|i: int|
                0 <= i < s.len() && #[trigger] s[i].0@ == k by {
            if k == s.last().0@ {
                assert(s[s.len() - 1].0@ == k);
            } else {
                let i = choose|i: int| 0 <= i < s.drop_last().len() && #[trigger] s.drop_last()[i].0@ == k;
                assert(s[i].0@ == k);
            }
        }
        assert forall|k: Seq<char>|
            (exists|i: int| 0 <= i < s.len() && #[trigger] s[i].0@ == k) implies pairs_map(s).dom().contains(k) by {
            let i = choose|i: int| 0 <= i < s.len() && #[trigger] s[i].0@ == k;
            if i < s.len() - 1 {
                assert(s.drop_last()[i].0@ == k);
            }
        }
    }
}

/// With distinct keys, the value of the key of the `i`-th pair is the value
/// of that pair.
pub proof fn lemma_pairs_map_index<V: DeepView>(s: Seq<(String, V)>, i: int)
    requires
        keys_distinct(s),
        0 <= i < s.len(),
    ensures
        pairs_map(s).dom().contains(s[i].0@),
        pairs_map(s)[s[i].0@] == s[i].1.deep_view(),
    decreases s.len(),
{
    if i < s.len() - 1 {
        assert(keys_distinct(s.drop_last()));
        lemma_pairs_map_index(s.drop_last(), i);
        assert(s[i].0@ != s[s.len() - 1].0@);
    }
}

/// With distinct keys, the map has as many keys as there are pairs.
pub proof fn lemma_pairs_map_len<V: DeepView>(s: Seq<(String, V)>)
    requires
        keys_distinct(s),
    ensures
        pairs_map(s).len() == s.len(),
    decreases s.len(),
{
    if s.len() > 0 {
        let t = s.drop_last();
        assert(keys_distinct(t));
        lemma_pairs_map_len(t);
        lemma_pairs_map_dom(t);
        assert(!pairs_map(t).dom().contains(s.last().0@)) by {
            if pairs_map(t).dom().contains(s.last().0@) {
                let j = choose|j: int| 0 <= j < t.len() && #[trigger] t[j].0@ == s.last().0@;
                assert(s[j].0@ == s[s.len() - 1].0@);
            }
        }
    }
}

/// Replacing the value of the `i`-th pair, key kept, updates the map at
/// that key.
pub proof fn lemma_pairs_map_update<V: DeepView>(s: Seq<(String, V)>, i: int, p: (String, V))
    requires
        keys_distinct(s),
        0 <= i < s.len(),
        p.0@ == s[i].0@,
    ensures
        keys_distinct(s.update(i, p)),
        pairs_map(s.update(i, p)) == pairs_map(s).insert(p.0@, p.1.deep_view()),
{
    let t = s.update(i, p);
    assert(keys_distinct(t)) by {
        assert forall|a: int, b: int| 0 <= a < b < t.len() implies #[trigger] t[a].0@ != #[trigger] t[b].0@ by {
            assert(s[a].0@ != s[b].0@);
        }
    }
    lemma_pairs_map_dom(s);
    lemma_pairs_map_dom(t);
    lemma_pairs_map_index(t, i);
    assert forall|k: Seq<char>| #[trigger] pairs_map(t).dom().contains(k) && k != p.0@ implies pairs_map(
        t,
    )[k] == pairs_map(s)[k] by {
        let j = choose|j: int| 0 <= j < t.len() && #[trigger] t[j].0@ == k;
        lemma_pairs_map_index(t, j);
        assert(t[j] == s[j]);
        lemma_pairs_map_index(s, j);
    }
    assert forall|k: Seq<char>| #[trigger] pairs_map(s).dom().contains(k) implies pairs_map(
        t,
    ).dom().contains(k) by {
        let j = choose|j: int| 0 <= j < s.len() && #[trigger] s[j].0@ == k;
        assert(t[j].0@ == k);
    }
    assert forall|k: Seq<char>| #[trigger] pairs_map(t).dom().contains(k) implies pairs_map(
        s,
    ).insert(p.0@, p.1.deep_view()).dom().contains(k) by {
        let j = choose|j: int| 0 <= j < t.len() && #[trigger] t[j].0@ == k;
        assert(s[j].0@ == k);
    }
    assert(pairs_map(t) =~= pairs_map(s).insert(p.0@, p.1.deep_view()));
}

/// A map keyed by text, whose keys are kept in the order in which they were
/// first inserted.
#[derive(Debug)]
pub struct StrMap<V> {
    entries: Vec<(String, V)>,
}

impl<V: DeepView> DeepView for StrMap<V> {
    type V = Map<Seq<char>, V::V>;

    closed spec fn deep_view(&self) -> Map<Seq<char>, V::V> {
        pairs_map(self.entries@)
    }
}

impl<V> StrMap<V> {
    #[verifier::type_invariant]
    spec fn distinct(self) -> bool {
        keys_distinct(self.entries@)
    }
}

impl<V: DeepView> StrMap<V> {
    /// The entries, in the order of their first insertion.
    pub closed spec fn pairs(self) -> Seq<(String, V)> {
        self.entries@
    }

    /// An empty map.
    pub fn new() -> (r: StrMap<V>)
        ensures
            r.deep_view() == Map::<Seq<char>, V::V>::empty(),
            r.pairs().len() == 0,
    {
        StrMap { entries: Vec::new() }
    }

    /// The number of keys.
    pub fn len(&self) -> (r: usize)
        ensures
            r == self.deep_view().len(),
            r == self.pairs().len(),
    {
        proof {
            use_type_invariant(self);
            lemma_pairs_map_len(self.entries@);
        }
        self.entries.len()
    }

    /// The entries, in the order of their first insertion.
    pub fn entries(&self) -> (r: &Vec<(String, V)>)
        ensures
            r@ == self.pairs(),
            keys_distinct(r@),
            self.deep_view() == pairs_map(r@),
    {
        proof {
            use_type_invariant(self);
        }
        &self.entries
    }

    /// The position among the entries of the key `k`, if present.
    fn position(&self, k: &String) -> (r: Option<usize>)
        ensures
            r matches Some(i) ==> i < self.entries.len() && self.entries@[i as int].0@ == k@,
            r is None ==> forall|i: int| 0 <= i < self.entries.len() ==> self.entries@[i].0@ != k@,
    {
        let mut i: usize = 0;
        while i < self.entries.len()
            invariant
                i <= self.entries.len(),
                forall|j: int| 0 <= j < i ==> self.entries@[j].0@ != k@,
            decreases self.entries.len() - i,
        {
            if self.entries[i].0 == *k {
                return Some(i);
            }
            i += 1;
        }
        None
    }

    /// The value of the key `k`, if present.
    pub fn get(&self, k: &String) -> (r: Option<&V>)
        ensures
            r is Some <==> self.deep_view().dom().contains(k@),
            r matches Some(v) ==> v.deep_view() == self.deep_view()[k@],
    {
        proof {
            use_type_invariant(self);
            lemma_pairs_map_dom(self.entries@);
        }
        match self.position(k) {
            Some(i) => {
                proof {
                    lemma_pairs_map_index(self.entries@, i as int);
                }
                Some(&self.entries[i].1)
            },
            None => None,
        }
    }

    /// Whether the key `k` is present.
    pub fn contains_key(&self, k: &String) -> (r: bool)
        ensures
            r == self.deep_view().dom().contains(k@),
    {
        self.get(k).is_some()
    }

    /// The entries, given up by the map, in the order of their first
    /// insertion.
    pub fn into_entries(self) -> (r: Vec<(String, V)>)
        ensures
            r@ == self.pairs(),
            keys_distinct(r@),
            self.deep_view() == pairs_map(r@),
    {
        proof {
            use_type_invariant(&self);
        }
        self.entries
    }

    /// Sets each key of `other` to its value there, replacing what this map
    /// had for it.
    pub fn extend(&mut self, other: StrMap<V>)
        ensures
            final(self).deep_view() == old(self).deep_view().union_prefer_right(other.deep_view()),
    {
        let ghost start = self.deep_view();
        let ghost other_map = other.deep_view();
        let pairs = other.into_entries();
        let ghost all = pairs@;
        let n = pairs.len();
        let mut rest = crate::parse::reversed(pairs);
        let mut i: usize = 0;
        assert(pairs_map(all.take(0)) =~= Map::<Seq<char>, V::V>::empty());
        assert(start.union_prefer_right(Map::<Seq<char>, V::V>::empty()) =~= start);
        while i < n
            invariant
                n == all.len(),
                i <= n,
                rest.len() == n - i,
                forall|j: int| 0 <= j < rest.len() ==> #[trigger] rest@[j] == all[n - 1 - j],
                self.deep_view() == start.union_prefer_right(pairs_map(all.take(i as int))),
                other_map == pairs_map(all),
                start == old(self).deep_view(),
                other_map == other.deep_view(),
            decreases n - i,
        {
            let ghost before = rest@;
            let (k, v) = rest.pop().unwrap();
            assert((k, v) == all[i as int]);
            assert(all.take(i + 1).drop_last() =~= all.take(i as int));
            assert(forall|j: int| 0 <= j < rest.len() ==> rest@[j] == before[j]);
            proof {
                vstd::map_lib::lemma_union_insert_right(
                    start,
                    pairs_map(all.take(i as int)),
                    k@,
                    v.deep_view(),
                );
            }
            self.insert(k, v);
            i += 1;
        }
        assert(all.take(n as int) =~= all);
    }

    /// Sets the value of `k` to `v`, replacing any value it had.
    pub fn insert(&mut self, k: String, v: V)
        ensures
            final(self).deep_view() == old(self).deep_view().insert(k@, v.deep_view()),
    {
        proof {
            use_type_invariant(&*self);
        }
        let ghost old_entries = self.entries@;
        match self.position(&k) {
            Some(i) => {
                proof {
                    lemma_pairs_map_update(old_entries, i as int, (k, v));
                }
                let mut entries = Vec::new();
                std::mem::swap(&mut entries, &mut self.entries);
                entries.set(i, (k, v));
                self.entries = entries;
            },
            None => {
                proof {
                    assert(keys_distinct(old_entries.push((k, v)))) by {
                        let t = old_entries.push((k, v));
                        assert forall|a: int, b: int| 0 <= a < b < t.len() implies #[trigger] t[a].0@
                            != #[trigger] t[b].0@ by {
                            if b == t.len() - 1 {
                                assert(old_entries[a].0@ != k@);
                            } else {
                                assert(old_entries[a].0@ != old_entries[b].0@);
                            }
                        }
                    }
                    assert(old_entries.push((k, v)).drop_last() =~= old_entries);
                }
                let mut entries = Vec::new();
                std::mem::swap(&mut entries, &mut self.entries);
                entries.push((k, v));
                self.entries = entries;
            },
        }
    }
}

} // verus!
