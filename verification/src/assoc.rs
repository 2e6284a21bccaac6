//! A map that keeps its entries in the order in which their keys first came.
use vstd::prelude::*;

verus! {

/// A key that can be compared.
pub trait Key: Sized + Copy {
    /// Whether two keys are the same.
    fn is(&self, other: &Self) -> (result: bool)
        ensures
            result == (*self == *other),
    ;
}

impl Key for u64 {
    fn is(&self, other: &Self) -> (result: bool) {
        *self == *other
    }
}

/// No key occurs twice.
pub open spec fn distinct<K, V>(pairs: Seq<(K, V)>) -> bool {
    forall|i: int, j: int|
        0 <= i < j < pairs.len() ==> (#[trigger] pairs[i]).0 != (#[trigger] pairs[j]).0
}

/// Some entry has the key.
pub open spec fn has_key<K, V>(pairs: Seq<(K, V)>, key: K) -> bool {
    exists|i: int| 0 <= i < pairs.len() && (#[trigger] pairs[i]).0 == key
}

/// The place of an entry that has the key.
pub open spec fn place_of<K, V>(pairs: Seq<(K, V)>, key: K) -> int {
    choose|i: int| 0 <= i < pairs.len() && (#[trigger] pairs[i]).0 == key
}

/// The entries as a map.
pub open spec fn as_map<K, V>(pairs: Seq<(K, V)>) -> Map<K, V> {
    Map::new(|key: K| has_key(pairs, key), |key: K| pairs[place_of(pairs, key)].1)
}

/// Where keys are distinct, each has the one value that stands beside it.
pub proof fn lemma_entry<K, V>(pairs: Seq<(K, V)>, i: int)
    requires
        distinct(pairs),
        0 <= i < pairs.len(),
    ensures
        has_key(pairs, pairs[i].0),
        place_of(pairs, pairs[i].0) == i,
        as_map(pairs).contains_key(pairs[i].0),
        as_map(pairs)[pairs[i].0] == pairs[i].1,
{
    let key = pairs[i].0;
    let k = place_of(pairs, key);
    assert(0 <= k < pairs.len() && pairs[k].0 == key);
}

/// Replacing a value replaces it in the map.
pub proof fn lemma_update<K, V>(pairs: Seq<(K, V)>, i: int, value: V)
    requires
        distinct(pairs),
        0 <= i < pairs.len(),
    ensures
        distinct(pairs.update(i, (pairs[i].0, value))),
        as_map(pairs.update(i, (pairs[i].0, value))) == as_map(pairs).insert(pairs[i].0, value),
{
    let key = pairs[i].0;
    let changed = pairs.update(i, (key, value));
    assert forall|a: int, b: int| 0 <= a < b < changed.len() implies (#[trigger] changed[a]).0 != (
    #[trigger] changed[b]).0 by {
        assert(changed[a].0 == pairs[a].0);
        assert(changed[b].0 == pairs[b].0);
    }
    let target = as_map(pairs).insert(key, value);
    assert forall|k: K| as_map(changed).contains_key(k) == target.contains_key(k) by {
        if has_key(changed, k) {
            let p = place_of(changed, k);
            assert(pairs[p].0 == k);
        }
        if has_key(pairs, k) {
            let p = place_of(pairs, k);
            assert(changed[p].0 == k);
        }
        if k == key {
            assert(changed[i].0 == k);
        }
    }
    assert forall|k: K| as_map(changed).contains_key(k) implies as_map(changed)[k]
        == target[k] by {
        let p = place_of(changed, k);
        lemma_entry(changed, p);
        lemma_entry(pairs, p);
        assert(pairs[p].0 == k);
        if k == key {
            lemma_entry(pairs, i);
        }
    }
    assert(as_map(changed) =~= target);
}

/// Appending an entry with a new key inserts it into the map.
pub proof fn lemma_push<K, V>(pairs: Seq<(K, V)>, key: K, value: V)
    requires
        distinct(pairs),
        !has_key(pairs, key),
    ensures
        distinct(pairs.push((key, value))),
        as_map(pairs.push((key, value))) == as_map(pairs).insert(key, value),
{
    let grown = pairs.push((key, value));
    assert forall|a: int, b: int| 0 <= a < b < grown.len() implies (#[trigger] grown[a]).0 != (
    #[trigger] grown[b]).0 by {
        assert(grown[a] == pairs[a]);
        if b < pairs.len() {
            assert(grown[b] == pairs[b]);
        }
    }
    let target = as_map(pairs).insert(key, value);
    assert forall|k: K| as_map(grown).contains_key(k) == target.contains_key(k) by {
        if has_key(grown, k) {
            let p = place_of(grown, k);
            if p < pairs.len() {
                assert(pairs[p].0 == k);
            }
        }
        if has_key(pairs, k) {
            let p = place_of(pairs, k);
            assert(grown[p].0 == k);
        }
        if k == key {
            assert(grown[pairs.len() as int].0 == k);
        }
    }
    assert forall|k: K| as_map(grown).contains_key(k) implies as_map(grown)[k] == target[k] by {
        let p = place_of(grown, k);
        lemma_entry(grown, p);
        if p < pairs.len() {
            lemma_entry(pairs, p);
            assert(pairs[p].0 == k);
        }
    }
    assert(as_map(grown) =~= target);
}

/// Taking an entry out removes its key from the map.
pub proof fn lemma_remove<K, V>(pairs: Seq<(K, V)>, i: int)
    requires
        distinct(pairs),
        0 <= i < pairs.len(),
    ensures
        distinct(pairs.remove(i)),
        as_map(pairs.remove(i)) == as_map(pairs).remove(pairs[i].0),
{
    let key = pairs[i].0;
    let rest = pairs.remove(i);
    assert forall|a: int| 0 <= a < rest.len() implies #[trigger] rest[a] == pairs[if a < i {
        a
    } else {
        a + 1
    }] by {}
    assert forall|a: int, b: int| 0 <= a < b < rest.len() implies (#[trigger] rest[a]).0 != (
    #[trigger] rest[b]).0 by {
        let pa = if a < i { a } else { a + 1 };
        let pb = if b < i { b } else { b + 1 };
        assert(pairs[pa].0 != pairs[pb].0);
    }
    let target = as_map(pairs).remove(key);
    assert forall|k: K| as_map(rest).contains_key(k) == target.contains_key(k) by {
        if has_key(rest, k) {
            let p = place_of(rest, k);
            let q = if p < i { p } else { p + 1 };
            assert(rest[p].0 == k);
            assert(pairs[q].0 == k);
            assert(pairs[q].0 != pairs[i].0);
        }
        if has_key(pairs, k) && k != key {
            let p = place_of(pairs, k);
            let q = if p < i { p } else { p - 1 };
            assert(rest[q].0 == k);
        }
    }
    assert forall|k: K| as_map(rest).contains_key(k) implies as_map(rest)[k] == target[k] by {
        let p = place_of(rest, k);
        assert(rest[p].0 == k);
        lemma_entry(rest, p);
        let q = if p < i { p } else { p + 1 };
        lemma_entry(pairs, q);
    }
    assert(as_map(rest) =~= target);
}

/// A map from comparable keys.
#[derive(Debug)]
pub struct AssocMap<K, V> {
    entries: Vec<(K, V)>,
}

impl<K, V> AssocMap<K, V> {
    /// The keys and values in the order of the keys' arrival.
    pub closed spec fn pairs(&self) -> Seq<(K, V)> {
        self.entries@
    }

    #[verifier::type_invariant]
    spec fn keys_are_distinct(&self) -> bool {
        distinct(self.pairs())
    }
}

impl<K, V> View for AssocMap<K, V> {
    type V = Map<K, V>;

    open spec fn view(&self) -> Map<K, V> {
        as_map(self.pairs())
    }
}

impl<K: Key, V> AssocMap<K, V> {
    /// A map without entries.
    pub fn new() -> (map: Self)
        ensures
            map.pairs() == Seq::<(K, V)>::empty(),
            map@ == Map::<K, V>::empty(),
    {
        let map = AssocMap { entries: Vec::new() };
        assert(map@ =~= Map::<K, V>::empty());
        map
    }

    /// How many keys the map has.
    pub fn len(&self) -> (n: usize)
        ensures
            n == self.pairs().len(),
            distinct(self.pairs()),
    {
        proof {
            use_type_invariant(self);
        }
        self.entries.len()
    }

    /// Where a key stands.
    pub fn find(&self, key: &K) -> (result: Option<usize>)
        ensures
            distinct(self.pairs()),
            match result {
                Some(i) => i < self.pairs().len() && self.pairs()[i as int].0 == *key
                    && self@.contains_key(*key) && self@[*key] == self.pairs()[i as int].1,
                None => !self@.contains_key(*key),
            },
    {
        proof {
            use_type_invariant(self);
        }
        for i in 0..self.entries.len()
            invariant
                distinct(self.pairs()),
                forall|k: int| 0 <= k < i ==> (#[trigger] self.pairs()[k]).0 != *key,
        {
            if self.entries[i].0.is(key) {
                proof {
                    lemma_entry(self.pairs(), i as int);
                }
                return Some(i);
            }
        }
        None
    }

    /// The value of a key.
    pub fn get(&self, key: &K) -> (result: Option<&V>)
        ensures
            result == if self@.contains_key(*key) {
                Some(&self@[*key])
            } else {
                None
            },
    {
        match self.find(key) {
            Some(i) => Some(&self.entries[i].1),
            None => None,
        }
    }

    /// The key in a place.
    pub fn key_at(&self, i: usize) -> (key: K)
        requires
            i < self.pairs().len(),
        ensures
            key == self.pairs()[i as int].0,
    {
        self.entries[i].0
    }

    /// The value in a place.
    pub fn value_at(&self, i: usize) -> (value: &V)
        requires
            i < self.pairs().len(),
        ensures
            *value == self.pairs()[i as int].1,
            self@.contains_key(self.pairs()[i as int].0),
            self@[self.pairs()[i as int].0] == *value,
    {
        proof {
            use_type_invariant(self);
            lemma_entry(self.pairs(), i as int);
        }
        &self.entries[i].1
    }

    /// Replaces the value in a place.
    pub fn set_value_at(&mut self, i: usize, value: V)
        requires
            i < old(self).pairs().len(),
        ensures
            final(self).pairs() == old(self).pairs().update(
                i as int,
                (old(self).pairs()[i as int].0, value),
            ),
            final(self)@ == old(self)@.insert(old(self).pairs()[i as int].0, value),
    {
        proof {
            use_type_invariant(&*self);
            lemma_update(self.pairs(), i as int, value);
        }
        let key = self.entries[i].0;
        let mut entries: Vec<(K, V)> = Vec::new();
        std::mem::swap(&mut entries, &mut self.entries);
        entries.set(i, (key, value));
        self.entries = entries;
    }

    /// Gives a key a value, in place of the one it had.
    pub fn insert(&mut self, key: K, value: V)
        ensures
            final(self)@ == old(self)@.insert(key, value),
            !old(self)@.contains_key(key) ==> final(self).pairs() == old(self).pairs().push(
                (key, value),
            ),
    {
        match self.find(&key) {
            Some(i) => {
                self.set_value_at(i, value);
            },
            None => {
                proof {
                    lemma_push(self.pairs(), key, value);
                }
                let mut entries: Vec<(K, V)> = Vec::new();
                std::mem::swap(&mut entries, &mut self.entries);
                entries.push((key, value));
                self.entries = entries;
            },
        }
    }

    /// Takes out the entry in a place.
    pub fn remove_at(&mut self, i: usize) -> (removed: V)
        requires
            i < old(self).pairs().len(),
        ensures
            final(self).pairs() == old(self).pairs().remove(i as int),
            final(self)@ == old(self)@.remove(old(self).pairs()[i as int].0),
            removed == old(self).pairs()[i as int].1,
    {
        proof {
            use_type_invariant(&*self);
            lemma_remove(self.pairs(), i as int);
        }
        let mut entries: Vec<(K, V)> = Vec::new();
        std::mem::swap(&mut entries, &mut self.entries);
        let entry = entries.remove(i);
        self.entries = entries;
        entry.1
    }

    /// Takes a key out.
    pub fn remove(&mut self, key: &K) -> (removed: Option<V>)
        ensures
            final(self)@ == old(self)@.remove(*key),
            removed == if old(self)@.contains_key(*key) {
                Some(old(self)@[*key])
            } else {
                None
            },
    {
        match self.find(key) {
            Some(i) => Some(self.remove_at(i)),
            None => {
                assert(self@.remove(*key) =~= self@);
                None
            },
        }
    }
}

} // verus!
