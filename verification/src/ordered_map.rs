//! A map from names to values that is walked in the order of its names.
use crate::text::chars_of;
use vstd::prelude::*;

verus! {

/// `a` comes before `b`: at the first difference `a` has the smaller character, or it ends there.
pub open spec fn before(a: Seq<char>, b: Seq<char>) -> bool
    decreases a.len(),
{
    if b.len() == 0 {
        false
    } else if a.len() == 0 {
        true
    } else if a[0] != b[0] {
        a[0] < b[0]
    } else {
        before(a.drop_first(), b.drop_first())
    }
}

pub proof fn lemma_before_irreflexive(a: Seq<char>)
    ensures
        !before(a, a),
    decreases a.len(),
{
    if a.len() > 0 {
        lemma_before_irreflexive(a.drop_first());
    }
}

pub proof fn lemma_before_transitive(a: Seq<char>, b: Seq<char>, c: Seq<char>)
    requires
        before(a, b),
        before(b, c),
    ensures
        before(a, c),
    decreases a.len(),
{
    if a.len() > 0 && a[0] == b[0] && b[0] == c[0] {
        lemma_before_transitive(a.drop_first(), b.drop_first(), c.drop_first());
    }
}

pub proof fn lemma_before_total(a: Seq<char>, b: Seq<char>)
    ensures
        before(a, b) || before(b, a) || a == b,
    decreases a.len(),
{
    if a.len() == 0 || b.len() == 0 {
        assert(a.len() == b.len() ==> a =~= b);
    } else if a[0] == b[0] {
        lemma_before_total(a.drop_first(), b.drop_first());
        if a.drop_first() == b.drop_first() {
            assert(a =~= seq![a[0]] + a.drop_first());
            assert(b =~= seq![b[0]] + b.drop_first());
        }
    }
}

/// How one name stands to another.
#[derive(Clone, Copy, PartialEq, Eq, Structural, Debug)]
pub enum NameOrder {
    Before,
    Same,
    After,
}

/// Compares two names.
pub fn order_names(a: &str, b: &str) -> (result: NameOrder)
    ensures
        result == NameOrder::Before <==> before(a@, b@),
        result == NameOrder::Same <==> a@ == b@,
        result == NameOrder::After <==> before(b@, a@),
{
    let left = chars_of(a);
    let right = chars_of(b);
    proof {
        lemma_before_irreflexive(a@);
        assert(a@.skip(0) =~= a@);
        assert(b@.skip(0) =~= b@);
    }
    let mut i: usize = 0;
    while i < left.len() && i < right.len() && left[i] == right[i]
        invariant
            left@ == a@,
            right@ == b@,
            i <= left.len(),
            i <= right.len(),
            forall|j: int| 0 <= j < i ==> a@[j] == b@[j],
            before(a@, b@) == before(a@.skip(i as int), b@.skip(i as int)),
            before(b@, a@) == before(b@.skip(i as int), a@.skip(i as int)),
        decreases left.len() - i,
    {
        assert(a@.skip(i as int).drop_first() =~= a@.skip(i + 1));
        assert(b@.skip(i as int).drop_first() =~= b@.skip(i + 1));
        i = i + 1;
    }
    if i == left.len() && i == right.len() {
        assert(a@ =~= b@);
        NameOrder::Same
    } else if i == left.len() {
        NameOrder::Before
    } else if i == right.len() {
        NameOrder::After
    } else if left[i] < right[i] {
        NameOrder::Before
    } else {
        NameOrder::After
    }
}

/// Names with their values, in the order of the names, each name once.
pub open spec fn ordered<V>(pairs: Seq<(Seq<char>, V)>) -> bool {
    forall|i: int, j: int|
        0 <= i < j < pairs.len() ==> before((#[trigger] pairs[i]).0, (#[trigger] pairs[j]).0)
}

/// The names and values as a map.
pub open spec fn as_map<V>(pairs: Seq<(Seq<char>, V)>) -> Map<Seq<char>, V> {
    Map::new(
        |name: Seq<char>| exists|i: int| 0 <= i < pairs.len() && (#[trigger] pairs[i]).0 == name,
        |name: Seq<char>|
            pairs[choose|i: int| 0 <= i < pairs.len() && (#[trigger] pairs[i]).0 == name].1,
    )
}

/// In an ordered sequence each name has the one value that stands beside it.
pub proof fn lemma_as_map<V>(pairs: Seq<(Seq<char>, V)>, i: int)
    requires
        ordered(pairs),
        0 <= i < pairs.len(),
    ensures
        as_map(pairs).contains_key(pairs[i].0),
        as_map(pairs)[pairs[i].0] == pairs[i].1,
{
    let name = pairs[i].0;
    let k = choose|k: int| 0 <= k < pairs.len() && (#[trigger] pairs[k]).0 == name;
    lemma_before_irreflexive(name);
    if k < i {
        assert(before(pairs[k].0, pairs[i].0));
    } else if i < k {
        assert(before(pairs[i].0, pairs[k].0));
    }
}

proof fn lemma_inserted<V>(pairs: Seq<(Seq<char>, V)>, at: int, name: Seq<char>, value: V)
    requires
        ordered(pairs),
        0 <= at <= pairs.len(),
        forall|i: int| 0 <= i < at ==> before((#[trigger] pairs[i]).0, name),
        forall|i: int| at <= i < pairs.len() ==> before(name, (#[trigger] pairs[i]).0),
    ensures
        ordered(pairs.insert(at, (name, value))),
        as_map(pairs.insert(at, (name, value))) == as_map(pairs).insert(name, value),
        !as_map(pairs).contains_key(name),
{
    let grown = pairs.insert(at, (name, value));
    lemma_before_irreflexive(name);
    assert forall|i: int| 0 <= i < pairs.len() implies (#[trigger] pairs[i]).0 != name by {
        if i < at {
            assert(before(pairs[i].0, name));
        } else {
            assert(before(name, pairs[i].0));
        }
    }
    assert forall|i: int, j: int| 0 <= i < j < grown.len() implies before(
        (#[trigger] grown[i]).0,
        (#[trigger] grown[j]).0,
    ) by {
        let pi = if i < at { i } else { i - 1 };
        let pj = if j < at { j } else { j - 1 };
        if i != at {
            assert(grown[i] == pairs[pi]);
        }
        if j != at {
            assert(grown[j] == pairs[pj]);
        }
    }
    assert forall|k: int| 0 <= k < grown.len() implies as_map(grown).contains_key(
        (#[trigger] grown[k]).0,
    ) && as_map(grown)[grown[k].0] == grown[k].1 by {
        lemma_as_map(grown, k);
    }
    assert forall|k: int| 0 <= k < pairs.len() implies as_map(pairs).contains_key(
        (#[trigger] pairs[k]).0,
    ) && as_map(pairs)[pairs[k].0] == pairs[k].1 by {
        lemma_as_map(pairs, k);
    }
    let target = as_map(pairs).insert(name, value);
    assert forall|n: Seq<char>| as_map(grown).contains_key(n) == target.contains_key(n) by {
        if as_map(grown).contains_key(n) {
            let k = choose|k: int| 0 <= k < grown.len() && (#[trigger] grown[k]).0 == n;
            if k < at {
                assert(pairs[k].0 == n);
            } else if k > at {
                assert(pairs[k - 1].0 == n);
            }
        }
        if target.contains_key(n) {
            if n == name {
                assert(grown[at].0 == n);
            } else {
                let k = choose|k: int| 0 <= k < pairs.len() && (#[trigger] pairs[k]).0 == n;
                let g = if k < at { k } else { k + 1 };
                assert(grown[g].0 == n);
            }
        }
    }
    assert forall|n: Seq<char>| as_map(grown).contains_key(n) implies as_map(grown)[n]
        == target[n] by {
        let k = choose|k: int| 0 <= k < grown.len() && (#[trigger] grown[k]).0 == n;
        assert(as_map(grown)[n] == grown[k].1);
        if k < at {
            assert(pairs[k] == grown[k]);
        } else if k > at {
            assert(pairs[k - 1] == grown[k]);
        }
    }
    assert(as_map(grown) =~= target);
}

proof fn lemma_replaced<V>(pairs: Seq<(Seq<char>, V)>, at: int, value: V)
    requires
        ordered(pairs),
        0 <= at < pairs.len(),
    ensures
        ordered(pairs.update(at, (pairs[at].0, value))),
        as_map(pairs.update(at, (pairs[at].0, value))) == as_map(pairs).insert(pairs[at].0, value),
{
    let name = pairs[at].0;
    let changed = pairs.update(at, (name, value));
    assert forall|i: int, j: int| 0 <= i < j < changed.len() implies before(
        (#[trigger] changed[i]).0,
        (#[trigger] changed[j]).0,
    ) by {
        assert(changed[i].0 == pairs[i].0);
        assert(changed[j].0 == pairs[j].0);
    }
    let target = as_map(pairs).insert(name, value);
    assert forall|n: Seq<char>| as_map(changed).contains_key(n) == target.contains_key(n) by {
        if as_map(changed).contains_key(n) {
            let k = choose|k: int| 0 <= k < changed.len() && (#[trigger] changed[k]).0 == n;
            assert(pairs[k].0 == n);
        }
        if target.contains_key(n) {
            if n == name {
                assert(changed[at].0 == n);
            } else {
                let k = choose|k: int| 0 <= k < pairs.len() && (#[trigger] pairs[k]).0 == n;
                assert(changed[k].0 == n);
            }
        }
    }
    assert forall|n: Seq<char>| as_map(changed).contains_key(n) implies as_map(changed)[n]
        == target[n] by {
        let k = choose|k: int| 0 <= k < changed.len() && (#[trigger] changed[k]).0 == n;
        lemma_as_map(changed, k);
        lemma_as_map(pairs, k);
        if n == name && k != at {
            lemma_as_map(changed, at);
        }
    }
    assert(as_map(changed) =~= target);
}

/// A map whose names are unique and ordered.
#[derive(Debug)]
pub struct OrderedMap<V> {
    entries: Vec<(String, V)>,
}

impl<V> OrderedMap<V> {
    /// The names and values in the order of the names.
    pub closed spec fn pairs(&self) -> Seq<(Seq<char>, V)> {
        self.entries@.map_values(|entry: (String, V)| (entry.0@, entry.1))
    }

    #[verifier::type_invariant]
    spec fn names_are_ordered(&self) -> bool {
        ordered(self.pairs())
    }
}

impl<V> View for OrderedMap<V> {
    type V = Map<Seq<char>, V>;

    open spec fn view(&self) -> Map<Seq<char>, V> {
        as_map(self.pairs())
    }
}

impl<V> OrderedMap<V> {
    /// A map without entries.
    pub fn new() -> (map: Self)
        ensures
            map.pairs() == Seq::<(Seq<char>, V)>::empty(),
            map@ == Map::<Seq<char>, V>::empty(),
    {
        let map = OrderedMap { entries: Vec::new() };
        assert(map.pairs() =~= Seq::<(Seq<char>, V)>::empty());
        assert(map@ =~= Map::<Seq<char>, V>::empty());
        map
    }

    /// How many names the map has.
    pub fn len(&self) -> (n: usize)
        ensures
            n == self.pairs().len(),
    {
        self.entries.len()
    }

    /// The entry in place `i` of the order.
    pub fn entry(&self, i: usize) -> (entry: (&String, &V))
        requires
            i < self.pairs().len(),
        ensures
            entry.0@ == self.pairs()[i as int].0,
            *entry.1 == self.pairs()[i as int].1,
            ordered(self.pairs()),
    {
        proof {
            use_type_invariant(self);
        }
        let found = &self.entries[i];
        (&found.0, &found.1)
    }

    /// Where `name` stands, or where it would have to be inserted.
    fn search(&self, name: &str) -> (result: (usize, bool))
        ensures
            ordered(self.pairs()),
            result.0 <= self.pairs().len(),
            result.1 ==> result.0 < self.pairs().len() && self.pairs()[result.0 as int].0 == name@,
            forall|i: int| 0 <= i < result.0 ==> before((#[trigger] self.pairs()[i]).0, name@),
            !result.1 ==> forall|i: int|
                result.0 <= i < self.pairs().len() ==> before(
                    name@,
                    (#[trigger] self.pairs()[i]).0,
                ),
    {
        proof {
            use_type_invariant(self);
        }
        let mut i: usize = 0;
        while i < self.entries.len()
            invariant
                i <= self.entries.len(),
                self.pairs().len() == self.entries.len(),
                ordered(self.pairs()),
                forall|k: int| 0 <= k < i ==> before((#[trigger] self.pairs()[k]).0, name@),
            decreases self.entries.len() - i,
        {
            match order_names(self.entries[i].0.as_str(), name) {
                NameOrder::Before => {
                    assert(self.pairs()[i as int].0 == self.entries@[i as int].0@);
                },
                NameOrder::Same => {
                    assert(self.pairs()[i as int].0 == self.entries@[i as int].0@);
                    return (i, true);
                },
                NameOrder::After => {
                    assert(self.pairs()[i as int].0 == self.entries@[i as int].0@);
                    assert forall|k: int| i <= k < self.pairs().len() implies before(
                        name@,
                        (#[trigger] self.pairs()[k]).0,
                    ) by {
                        if k > i {
                            assert(before(self.pairs()[i as int].0, self.pairs()[k].0));
                            lemma_before_transitive(
                                name@,
                                self.pairs()[i as int].0,
                                self.pairs()[k].0,
                            );
                        }
                    }
                    return (i, false);
                },
            }
            i = i + 1;
        }
        (i, false)
    }

    /// The value of a name.
    pub fn get(&self, name: &str) -> (result: Option<&V>)
        ensures
            result == if self@.contains_key(name@) {
                Some(&self@[name@])
            } else {
                None
            },
    {
        let (at, found) = self.search(name);
        if found {
            proof {
                lemma_as_map(self.pairs(), at as int);
            }
            Some(&self.entries[at].1)
        } else {
            proof {
                lemma_before_irreflexive(name@);
                assert forall|i: int| 0 <= i < self.pairs().len() implies (
                #[trigger] self.pairs()[i]).0 != name@ by {
                    if i < at {
                        assert(before(self.pairs()[i].0, name@));
                    } else {
                        assert(before(name@, self.pairs()[i].0));
                    }
                }
            }
            None
        }
    }

    /// Gives a name a value, in place of the one it had, which is handed back.
    pub fn insert(&mut self, name: String, value: V) -> (replaced: Option<V>)
        ensures
            final(self)@ == old(self)@.insert(name@, value),
            replaced == if old(self)@.contains_key(name@) {
                Some(old(self)@[name@])
            } else {
                None
            },
    {
        let (at, found) = self.search(name.as_str());
        let ghost pairs = self.pairs();
        let ghost label = name@;
        let mut entries: Vec<(String, V)> = Vec::new();
        std::mem::swap(&mut entries, &mut self.entries);
        if found {
            proof {
                lemma_replaced(pairs, at as int, value);
                lemma_as_map(pairs, at as int);
            }
            entries.push((name, value));
            let old_entry = entries.swap_remove(at);
            assert(entries@.map_values(|entry: (String, V)| (entry.0@, entry.1)) =~= pairs.update(
                at as int,
                (label, value),
            ));
            self.entries = entries;
            Some(old_entry.1)
        } else {
            proof {
                lemma_inserted(pairs, at as int, label, value);
            }
            entries.insert(at, (name, value));
            assert(entries@.map_values(|entry: (String, V)| (entry.0@, entry.1)) =~= pairs.insert(
                at as int,
                (label, value),
            ));
            self.entries = entries;
            None
        }
    }

    /// Gives a name a value unless it has one.
    pub fn insert_if_absent(&mut self, name: String, value: V)
        ensures
            final(self)@ == if old(self)@.contains_key(name@) {
                old(self)@
            } else {
                old(self)@.insert(name@, value)
            },
    {
        if self.get(name.as_str()).is_none() {
            let _ = self.insert(name, value);
        }
    }
}

impl<V: Clone> Clone for OrderedMap<V> {
    fn clone(&self) -> (copy: Self)
        ensures
            copy.pairs().len() == self.pairs().len(),
            forall|i: int|
                0 <= i < self.pairs().len() ==> (#[trigger] copy.pairs()[i]).0
                    == self.pairs()[i].0 && cloned(self.pairs()[i].1, copy.pairs()[i].1),
    {
        proof {
            use_type_invariant(self);
        }
        let ghost pairs = self.pairs();
        let mut entries: Vec<(String, V)> = Vec::new();
        for i in 0..self.entries.len()
            invariant
                pairs == self.pairs(),
                pairs.len() == self.entries.len(),
                entries.len() == i,
                forall|k: int|
                    0 <= k < i ==> (#[trigger] entries@[k]).0@ == pairs[k].0 && cloned(
                        pairs[k].1,
                        entries@[k].1,
                    ),
        {
            let name = self.entries[i].0.clone();
            let value = self.entries[i].1.clone();
            assert(pairs[i as int] == (self.entries@[i as int].0@, self.entries@[i as int].1));
            entries.push((name, value));
        }
        let ghost copied = entries@.map_values(|entry: (String, V)| (entry.0@, entry.1));
        assert forall|i: int, j: int| 0 <= i < j < copied.len() implies before(
            (#[trigger] copied[i]).0,
            (#[trigger] copied[j]).0,
        ) by {
            assert(copied[i].0 == pairs[i].0);
            assert(copied[j].0 == pairs[j].0);
        }
        OrderedMap { entries }
    }
}

proof fn lemma_before_common(common: Seq<char>, a: Seq<char>, b: Seq<char>)
    ensures
        before(common + a, common + b) == before(a, b),
    decreases common.len(),
{
    if common.len() == 0 {
        assert(common + a =~= a);
        assert(common + b =~= b);
    } else {
        assert((common + a).drop_first() =~= common.drop_first() + a);
        assert((common + b).drop_first() =~= common.drop_first() + b);
        lemma_before_common(common.drop_first(), a, b);
    }
}

/// Names are ordered by their first difference: the smaller character comes first, and the end of a name
/// before everything.
pub proof fn first_difference_decides(
    left: &str,
    right: &str,
    result: NameOrder,
    common: Seq<char>,
    a: Seq<char>,
    b: Seq<char>,
)
    requires
        call_ensures(order_names, (left, right), result),
        left@ == common + a,
        right@ == common + b,
        a.len() > 0 && b.len() > 0 ==> a[0] != b[0],
    ensures
        a.len() > 0 && b.len() > 0 && a[0] < b[0] ==> result == NameOrder::Before,
        a.len() > 0 && b.len() > 0 && a[0] > b[0] ==> result == NameOrder::After,
        a.len() == 0 && b.len() > 0 ==> result == NameOrder::Before,
        a.len() > 0 && b.len() == 0 ==> result == NameOrder::After,
        a.len() == 0 && b.len() == 0 ==> result == NameOrder::Same,
{
    lemma_before_common(common, a, b);
    lemma_before_common(common, b, a);
    if a.len() == 0 && b.len() == 0 {
        assert(left@ =~= right@);
    }
}

} // verus!
