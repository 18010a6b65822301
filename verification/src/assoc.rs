//! A map that remembers the order in which its keys came.
use vstd::prelude::*;

verus! {

/// A type whose values can be told apart, as keys must be.
pub trait MapKey: View + Sized {
    /// Whether `self` and `other` are the same key.
    fn same_key(&self, other: &Self) -> (same: bool)
        ensures
            same == (self@ == other@),
    ;
}

impl MapKey for u128 {
    fn same_key(&self, other: &Self) -> (same: bool) {
        *self == *other
    }
}

impl MapKey for String {
    fn same_key(&self, other: &Self) -> (same: bool) {
        *self == *other
    }
}

/// Some pair of `pairs` has the key `key`.
pub open spec fn has_key<K, V>(pairs: Seq<(K, V)>, key: K) -> bool {
    exists|i: int| 0 <= i < pairs.len() && #[trigger] pairs[i].0 == key
}

/// A place in `pairs` where the key `key` stands, if there is one.
pub open spec fn key_position<K, V>(pairs: Seq<(K, V)>, key: K) -> int {
    choose|i: int| 0 <= i < pairs.len() && #[trigger] pairs[i].0 == key
}

/// No key occurs twice in `pairs`.
pub open spec fn distinct_keys<K, V>(pairs: Seq<(K, V)>) -> bool {
    forall|i: int, j: int|
        #![trigger pairs[i], pairs[j]]
        0 <= i < j < pairs.len() ==> pairs[i].0 != pairs[j].0
}

/// The map that a list of pairs with distinct keys stands for.
pub open spec fn pairs_map<K, V>(pairs: Seq<(K, V)>) -> Map<K, V> {
    Map::new(|key: K| has_key(pairs, key), |key: K| pairs[key_position(pairs, key)].1)
}

/// Each pair of a list with distinct keys is a pair of its map.
pub proof fn lemma_pair_in_map<K, V>(pairs: Seq<(K, V)>, i: int)
    requires
        distinct_keys(pairs),
        0 <= i < pairs.len(),
    ensures
        pairs_map(pairs).contains_key(pairs[i].0),
        pairs_map(pairs)[pairs[i].0] == pairs[i].1,
{
    let key = pairs[i].0;
    assert(has_key(pairs, key));
    let j = key_position(pairs, key);
    assert(0 <= j < pairs.len() && pairs[j].0 == key);
}

/// A key of the map stands somewhere in the list, with its value.
pub proof fn lemma_map_in_pairs<K, V>(pairs: Seq<(K, V)>, key: K) -> (i: int)
    requires
        pairs_map(pairs).contains_key(key),
    ensures
        0 <= i < pairs.len(),
        pairs[i] == (key, pairs_map(pairs)[key]),
{
    key_position(pairs, key)
}

/// A pair with a new key at the end of the list is a pair more in the map.
pub proof fn lemma_map_push<K, V>(pairs: Seq<(K, V)>, key: K, value: V)
    requires
        distinct_keys(pairs),
        !has_key(pairs, key),
    ensures
        distinct_keys(pairs.push((key, value))),
        pairs_map(pairs.push((key, value))) == pairs_map(pairs).insert(key, value),
{
    let longer = pairs.push((key, value));
    assert(distinct_keys(longer)) by {
        assert forall|i: int, j: int|
            #![trigger longer[i], longer[j]]
            0 <= i < j < longer.len() implies longer[i].0 != longer[j].0 by {
            assert(longer[i] == pairs[i]);
            if j < pairs.len() {
                assert(longer[j] == pairs[j]);
            }
        }
    }
    assert forall|k: K| has_key(longer, k) == (k == key || has_key(pairs, k)) by {
        if has_key(pairs, k) {
            let i = key_position(pairs, k);
            assert(longer[i].0 == k);
        }
        if k == key {
            assert(longer[pairs.len() as int].0 == k);
        }
        if has_key(longer, k) {
            let i = key_position(longer, k);
            if i < pairs.len() {
                assert(pairs[i].0 == k);
            }
        }
    }
    assert forall|k: K| has_key(longer, k) implies pairs_map(longer)[k] == pairs_map(
        pairs,
    ).insert(key, value)[k] by {
        let i = key_position(longer, k);
        if i < pairs.len() {
            assert(pairs[i].0 == k);
            lemma_pair_in_map(pairs, i);
        }
    }
    assert(pairs_map(longer) =~= pairs_map(pairs).insert(key, value));
}

/// A new value in the place of a pair's old one is a new value in the map.
pub proof fn lemma_map_update<K, V>(pairs: Seq<(K, V)>, i: int, value: V)
    requires
        distinct_keys(pairs),
        0 <= i < pairs.len(),
    ensures
        distinct_keys(pairs.update(i, (pairs[i].0, value))),
        pairs_map(pairs.update(i, (pairs[i].0, value))) == pairs_map(pairs).insert(
            pairs[i].0,
            value,
        ),
{
    let key = pairs[i].0;
    let changed = pairs.update(i, (key, value));
    assert forall|j: int| 0 <= j < pairs.len() implies (#[trigger] changed[j]).0 == pairs[j].0 by {}
    assert(distinct_keys(changed)) by {
        assert forall|a: int, b: int|
            #![trigger changed[a], changed[b]]
            0 <= a < b < changed.len() implies changed[a].0 != changed[b].0 by {
            assert(pairs[a].0 != pairs[b].0);
        }
    }
    assert forall|k: K| has_key(changed, k) == has_key(pairs, k) by {
        if has_key(pairs, k) {
            assert(changed[key_position(pairs, k)].0 == k);
        }
        if has_key(changed, k) {
            assert(pairs[key_position(changed, k)].0 == k);
        }
    }
    assert(has_key(pairs, key));
    assert forall|k: K| has_key(changed, k) implies pairs_map(changed)[k] == pairs_map(
        pairs,
    ).insert(key, value)[k] by {
        let j = key_position(changed, k);
        assert(pairs[j].0 == k);
        if j == i {
            assert(changed[j] == (key, value));
        } else {
            assert(pairs[i].0 != pairs[j].0);
            lemma_pair_in_map(pairs, j);
        }
    }
    assert(pairs_map(changed) =~= pairs_map(pairs).insert(key, value));
}

/// A pair less in the list is a pair less in the map.
pub proof fn lemma_map_remove<K, V>(pairs: Seq<(K, V)>, i: int)
    requires
        distinct_keys(pairs),
        0 <= i < pairs.len(),
    ensures
        distinct_keys(pairs.remove(i)),
        pairs_map(pairs.remove(i)) == pairs_map(pairs).remove(pairs[i].0),
{
    let key = pairs[i].0;
    let rest = pairs.remove(i);
    assert forall|j: int| 0 <= j < rest.len() implies #[trigger] rest[j] == pairs[if j < i {
        j
    } else {
        j + 1
    }] by {}
    assert(distinct_keys(rest)) by {
        assert forall|a: int, b: int|
            #![trigger rest[a], rest[b]]
            0 <= a < b < rest.len() implies rest[a].0 != rest[b].0 by {
            let x = if a < i { a } else { a + 1 };
            let y = if b < i { b } else { b + 1 };
            assert(pairs[x].0 != pairs[y].0);
        }
    }
    assert forall|k: K| has_key(rest, k) == (k != key && has_key(pairs, k)) by {
        if has_key(rest, k) {
            let j = key_position(rest, k);
            let x = if j < i { j } else { j + 1 };
            assert(pairs[x].0 == k);
            assert(x != i);
            if x < i {
                assert(pairs[x].0 != pairs[i].0);
            } else {
                assert(pairs[i].0 != pairs[x].0);
            }
        }
        if k != key && has_key(pairs, k) {
            let x = key_position(pairs, k);
            let j = if x < i { x } else { x - 1 };
            assert(rest[j].0 == k);
        }
    }
    assert forall|k: K| has_key(rest, k) implies pairs_map(rest)[k] == pairs_map(pairs).remove(
        key,
    )[k] by {
        let j = key_position(rest, k);
        let x = if j < i { j } else { j + 1 };
        assert(pairs[x].0 == k);
        lemma_pair_in_map(pairs, x);
    }
    assert(pairs_map(rest) =~= pairs_map(pairs).remove(key));
}

/// A map from keys to values. A key that is new comes last, and a key that is
/// there already keeps its place.
#[derive(Debug)]
pub struct AssocMap<K: MapKey, V: DeepView> {
    entries: Vec<(K, V)>,
}

impl<K: MapKey, V: DeepView> View for AssocMap<K, V> {
    type V = Map<K::V, V::V>;

    open spec fn view(&self) -> Map<K::V, V::V> {
        pairs_map(self.listing())
    }
}

impl<K: MapKey, V: DeepView> DeepView for AssocMap<K, V> {
    type V = Map<K::V, V::V>;

    open spec fn deep_view(&self) -> Map<K::V, V::V> {
        self@
    }
}

impl<K: MapKey, V: DeepView> AssocMap<K, V> {
    /// The pairs themselves, in their order.
    pub closed spec fn pairs(&self) -> Seq<(K, V)> {
        self.entries@
    }

    /// What the pairs say, in their order.
    pub open spec fn listing(&self) -> Seq<(K::V, V::V)> {
        Seq::new(
            self.pairs().len(),
            |i: int| (self.pairs()[i].0@, self.pairs()[i].1.deep_view()),
        )
    }

    #[verifier::type_invariant]
    closed spec fn keys_distinct(&self) -> bool {
        distinct_keys(self.listing())
    }

    /// A map without pairs.
    pub fn new() -> (map: Self)
        ensures
            map.listing() == Seq::<(K::V, V::V)>::empty(),
            map@ == Map::<K::V, V::V>::empty(),
    {
        let map = AssocMap { entries: Vec::new() };
        assert(map@ =~= Map::<K::V, V::V>::empty());
        map
    }

    /// The number of pairs.
    pub fn len(&self) -> (n: usize)
        ensures
            n == self.listing().len(),
    {
        self.entries.len()
    }

    /// The pair at place `i`.
    pub fn pair(&self, i: usize) -> (pair: (&K, &V))
        requires
            i < self.listing().len(),
        ensures
            (pair.0@, pair.1.deep_view()) == self.listing()[i as int],
            self@.contains_key(pair.0@),
            self@[pair.0@] == pair.1.deep_view(),
    {
        proof {
            use_type_invariant(self);
            lemma_pair_in_map(self.listing(), i as int);
        }
        (&self.entries[i].0, &self.entries[i].1)
    }

    /// The place of `key`, or none if it is not there.
    fn find(&self, key: &K) -> (place: Option<usize>)
        ensures
            match place {
                Some(i) => i < self.listing().len() && self.listing()[i as int].0 == key@,
                None => !has_key(self.listing(), key@),
            },
    {
        for i in 0..self.entries.len()
            invariant
                forall|j: int| 0 <= j < i ==> (#[trigger] self.listing()[j]).0 != key@,
        {
            if self.entries[i].0.same_key(key) {
                return Some(i);
            }
        }
        None
    }

    /// The value of `key`.
    pub fn get(&self, key: &K) -> (value: Option<&V>)
        ensures
            match value {
                Some(v) => self@.contains_key(key@) && v.deep_view() == self@[key@],
                None => !self@.contains_key(key@),
            },
    {
        match self.find(key) {
            Some(i) => {
                proof {
                    use_type_invariant(self);
                    lemma_pair_in_map(self.listing(), i as int);
                }
                Some(&self.entries[i].1)
            },
            None => None,
        }
    }

    /// Gives `key` the value `value`.
    pub fn insert(&mut self, key: K, value: V)
        ensures
            final(self)@ == old(self)@.insert(key@, value.deep_view()),
            if old(self)@.contains_key(key@) {
                exists|i: int|
                    {
                        &&& 0 <= i < old(self).listing().len()
                        &&& #[trigger] old(self).listing()[i].0 == key@
                        &&& final(self).listing() == old(self).listing().update(
                            i,
                            (key@, value.deep_view()),
                        )
                    }
            } else {
                final(self).listing() == old(self).listing().push((key@, value.deep_view()))
            },
    {
        proof {
            use_type_invariant(&*self);
        }
        let ghost before = self.listing();
        let place = self.find(&key);
        let mut entries: Vec<(K, V)> = Vec::new();
        std::mem::swap(&mut entries, &mut self.entries);
        match place {
            Some(i) => {
                proof {
                    lemma_map_update(before, i as int, value.deep_view());
                    lemma_pair_in_map(before, i as int);
                }
                let ghost after = before.update(i as int, (before[i as int].0, value.deep_view()));
                entries[i] = (key, value);
                assert(Seq::new(
                    entries@.len(),
                    |j: int| (entries@[j].0@, entries@[j].1.deep_view()),
                ) =~= after);
            },
            None => {
                proof {
                    lemma_map_push(before, key@, value.deep_view());
                }
                let ghost after = before.push((key@, value.deep_view()));
                entries.push((key, value));
                assert(Seq::new(
                    entries@.len(),
                    |j: int| (entries@[j].0@, entries@[j].1.deep_view()),
                ) =~= after);
            },
        }
        self.entries = entries;
    }

    /// Takes `key` and its value out.
    pub fn remove(&mut self, key: &K) -> (value: Option<V>)
        ensures
            final(self)@ == old(self)@.remove(key@),
            match value {
                Some(v) => {
                    &&& old(self)@.contains_key(key@)
                    &&& v.deep_view() == old(self)@[key@]
                    &&& exists|i: int|
                        {
                            &&& 0 <= i < old(self).listing().len()
                            &&& #[trigger] old(self).listing()[i].0 == key@
                            &&& final(self).listing() == old(self).listing().remove(i)
                        }
                },
                None => !old(self)@.contains_key(key@) && final(self).listing() == old(
                    self,
                ).listing(),
            },
    {
        proof {
            use_type_invariant(&*self);
        }
        let ghost before = self.listing();
        match self.find(key) {
            Some(i) => {
                let mut entries: Vec<(K, V)> = Vec::new();
                std::mem::swap(&mut entries, &mut self.entries);
                proof {
                    lemma_map_remove(before, i as int);
                    lemma_pair_in_map(before, i as int);
                }
                let (_, value) = entries.remove(i);
                assert(Seq::new(
                    entries@.len(),
                    |j: int| (entries@[j].0@, entries@[j].1.deep_view()),
                ) =~= before.remove(i as int));
                self.entries = entries;
                Some(value)
            },
            None => {
                assert(self@ =~= self@.remove(key@));
                None
            },
        }
    }

    /// The pairs themselves, in their order.
    pub fn into_pairs(self) -> (pairs: Vec<(K, V)>)
        ensures
            pairs@ == self.pairs(),
    {
        self.entries
    }
}

} // verus!
