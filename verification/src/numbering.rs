//! Stable sorting of items by a number.
use vstd::prelude::*;

verus! {

/// How many items from place `i` on come before an item of the given number.
pub open spec fn place<T>(items: Seq<(u32, T)>, number: u32, i: int) -> int
    decreases items.len() - i,
{
    if 0 <= i < items.len() && items[i].0 < number {
        place(items, number, i + 1)
    } else {
        i
    }
}

/// The items in the order of their numbers; those of one number in the order in which they came.
pub open spec fn sorted<T>(items: Seq<(u32, T)>) -> Seq<(u32, T)>
    decreases items.len(),
{
    if items.len() == 0 {
        Seq::empty()
    } else {
        let rest = sorted(items.drop_first());
        rest.insert(place(rest, items[0].0, 0), items[0])
    }
}

/// Numbers and items side by side.
pub open spec fn paired<T>(numbers: Seq<u32>, items: Seq<T>) -> Seq<(u32, T)> {
    Seq::new(items.len(), |i: int| (numbers[i], items[i]))
}

/// The items without their numbers.
pub open spec fn unpaired<T>(items: Seq<(u32, T)>) -> Seq<T> {
    items.map_values(|item: (u32, T)| item.1)
}

/// Numbers never fall.
pub open spec fn ascending<T>(items: Seq<(u32, T)>) -> bool {
    forall|i: int, j: int|
        0 <= i < j < items.len() ==> (#[trigger] items[i]).0 <= (#[trigger] items[j]).0
}

/// An item is put between those of smaller numbers and the others.
pub proof fn lemma_place<T>(items: Seq<(u32, T)>, number: u32, i: int)
    requires
        0 <= i <= items.len(),
    ensures
        i <= place(items, number, i) <= items.len(),
        forall|j: int| i <= j < place(items, number, i) ==> (#[trigger] items[j]).0 < number,
        place(items, number, i) < items.len() ==> items[place(items, number, i)].0 >= number,
    decreases items.len() - i,
{
    if i < items.len() && items[i].0 < number {
        lemma_place(items, number, i + 1);
    }
}

/// Sorting puts the numbers in order and neither loses nor adds an item.
pub proof fn lemma_sorted<T>(items: Seq<(u32, T)>)
    ensures
        ascending(sorted(items)),
        sorted(items).len() == items.len(),
        sorted(items).to_multiset() == items.to_multiset(),
    decreases items.len(),
{
    broadcast use vstd::seq_lib::group_to_multiset_ensures;

    if items.len() > 0 {
        let first = items[0];
        let rest = sorted(items.drop_first());
        lemma_sorted(items.drop_first());
        lemma_place(rest, first.0, 0);
        let at = place(rest, first.0, 0);
        let result = sorted(items);
        assert forall|i: int, j: int| 0 <= i < j < result.len() implies (#[trigger] result[i]).0 <= (
        #[trigger] result[j]).0 by {
            if i < at && j > at {
                assert(rest[i].0 < first.0);
                assert(rest[i].0 <= rest[j - 1].0);
            } else if i == at {
                assert(rest[at].0 <= rest[j - 1].0);
            } else if i > at {
                assert(rest[i - 1].0 <= rest[j - 1].0);
            } else if j < at {
                assert(rest[i].0 <= rest[j].0);
            }
        }
        assert(items =~= seq![first] + items.drop_first());
        vstd::seq_lib::lemma_multiset_commutative(seq![first], items.drop_first());
        assert(result =~= rest.take(at) + (seq![first] + rest.skip(at)));
        assert(rest =~= rest.take(at) + rest.skip(at));
        vstd::seq_lib::lemma_multiset_commutative(rest.take(at), rest.skip(at));
        vstd::seq_lib::lemma_multiset_commutative(rest.take(at), seq![first] + rest.skip(at));
        vstd::seq_lib::lemma_multiset_commutative(seq![first], rest.skip(at));
        assert(result.to_multiset() =~= items.to_multiset());
    }
}

/// Puts an item in front of the first item whose number is not smaller.
pub fn insert_numbered<T>(numbers: &mut Vec<u32>, items: &mut Vec<T>, number: u32, item: T)
    requires
        old(numbers).len() == old(items).len(),
    ensures
        final(numbers).len() == final(items).len(),
        paired(final(numbers)@, final(items)@) == paired(old(numbers)@, old(items)@).insert(
            place(paired(old(numbers)@, old(items)@), number, 0),
            (number, item),
        ),
{
    let ghost before = paired(numbers@, items@);
    let mut at: usize = 0;
    while at < numbers.len() && numbers[at] < number
        invariant
            numbers.len() == items.len(),
            before == paired(numbers@, items@),
            at <= numbers.len(),
            place(before, number, 0) == place(before, number, at as int),
        decreases numbers.len() - at,
    {
        at = at + 1;
    }
    numbers.insert(at, number);
    items.insert(at, item);
    assert(paired(numbers@, items@) =~= before.insert(at as int, (number, item)));
}

/// An item comes before another one where its number is smaller, or where the numbers are the same and
/// it came first.
pub proof fn numbers_decide_on_the_order<T>(items: Seq<(u32, T)>, i: int, j: int) -> (places: (
    int,
    int,
))
    requires
        0 <= i < items.len(),
        0 <= j < items.len(),
        items[i].0 < items[j].0 || items[i].0 == items[j].0 && i < j,
    ensures
        0 <= places.0 < places.1 < items.len(),
        sorted(items).len() == items.len(),
        sorted(items)[places.0] == items[i],
        sorted(items)[places.1] == items[j],
    decreases items.len(),
{
    let first = items[0];
    let tail = items.drop_first();
    let rest = sorted(tail);
    lemma_sorted(items);
    lemma_sorted(tail);
    lemma_place(rest, first.0, 0);
    let at = place(rest, first.0, 0);
    let result = sorted(items);
    assert(result == rest.insert(at, first));
    if i == 0 {
        let q = lemma_item_stays(tail, j - 1);
        assert(q >= at) by {
            if q < at {
                assert(rest[q].0 < first.0);
            }
        }
        assert(result[q + 1] == rest[q]);
        (at, q + 1)
    } else if j == 0 {
        let p = lemma_item_stays(tail, i - 1);
        assert(p < at) by {
            if p >= at {
                assert(rest[at].0 >= first.0);
                assert(p > at ==> rest[at].0 <= rest[p].0);
            }
        }
        assert(result[p] == rest[p]);
        (p, at)
    } else {
        assert(tail[i - 1] == items[i]);
        assert(tail[j - 1] == items[j]);
        let (p, q) = numbers_decide_on_the_order(tail, i - 1, j - 1);
        let p = if p < at {
            p
        } else {
            p + 1
        };
        let q = if q < at {
            q
        } else {
            q + 1
        };
        (p, q)
    }
}

/// Sorting keeps every item.
pub proof fn lemma_item_stays<T>(items: Seq<(u32, T)>, i: int) -> (at: int)
    requires
        0 <= i < items.len(),
    ensures
        sorted(items).len() == items.len(),
        0 <= at < items.len(),
        sorted(items)[at] == items[i],
    decreases items.len(),
{
    let tail = items.drop_first();
    let rest = sorted(tail);
    lemma_sorted(items);
    lemma_sorted(tail);
    lemma_place(rest, items[0].0, 0);
    let place = place(rest, items[0].0, 0);
    if i == 0 {
        place
    } else {
        assert(tail[i - 1] == items[i]);
        let at = lemma_item_stays(tail, i - 1);
        if at < place {
            at
        } else {
            at + 1
        }
    }
}

} // verus!
