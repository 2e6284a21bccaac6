//! How a history is kept from growing: finished entries go, the oldest first.
use crate::numbering;
use crate::numbering::insert_numbered;
use crate::text;
use vstd::prelude::*;

verus! {

/// An entry of a history.
#[derive(Clone, PartialEq, Eq, Debug)]
pub struct HistoryEntry {
    pub id: String,
    pub number: u32,
    pub finished: bool,
}

/// An entry of a history, as values.
pub struct EntryView {
    pub id: Seq<char>,
    pub number: u32,
    pub finished: bool,
}

impl View for HistoryEntry {
    type V = EntryView;

    open spec fn view(&self) -> EntryView {
        EntryView { id: self.id@, number: self.number, finished: self.finished }
    }
}

/// The entries of a history, as values.
pub open spec fn entry_views(entries: Seq<HistoryEntry>) -> Seq<EntryView> {
    entries.map_values(|entry: HistoryEntry| entry@)
}

/// The entries in the order of their numbers.
pub open spec fn in_order(entries: Seq<EntryView>) -> Seq<EntryView> {
    numbering::unpaired(
        numbering::sorted(entries.map_values(|entry: EntryView| (entry.number, entry))),
    )
}

/// The finished ones among the first `n` entries.
pub open spec fn finished_before(entries: Seq<EntryView>, n: int) -> Seq<EntryView>
    decreases n,
{
    if n <= 0 || n > entries.len() {
        Seq::empty()
    } else if entries[n - 1].finished {
        finished_before(entries, n - 1).push(entries[n - 1])
    } else {
        finished_before(entries, n - 1)
    }
}

/// The finished entries in the order of their numbers.
pub open spec fn finished_in_order(entries: Seq<EntryView>) -> Seq<EntryView> {
    finished_before(in_order(entries), in_order(entries).len() as int)
}

/// How many finished entries there are beyond those that are kept.
pub open spec fn surplus(entries: Seq<EntryView>, keep: usize) -> int {
    let total = finished_in_order(entries).len();
    if total > keep {
        total - keep
    } else {
        0
    }
}

/// The entries that go so that no more than `keep` finished ones stay.
pub open spec fn pruned(entries: Seq<EntryView>, keep: usize) -> Seq<EntryView> {
    finished_in_order(entries).take(surplus(entries, keep))
}

/// The ids of entries.
pub open spec fn ids_of(entries: Seq<EntryView>) -> Seq<Seq<char>> {
    entries.map_values(|entry: EntryView| entry.id)
}

/// The ids of the entries that go so that no more than `keep` finished ones stay.
pub fn prune(entries: Vec<HistoryEntry>, keep: usize) -> (removed: Vec<String>)
    ensures
        text::texts(removed@) == ids_of(pruned(entry_views(entries@), keep)),
{
    let ghost views = entry_views(entries@);
    let ghost numbered = views.map_values(|entry: EntryView| (entry.number, entry));
    let mut left = entries;
    let ghost all = left@;
    let mut numbers: Vec<u32> = Vec::new();
    let mut ordered: Vec<HistoryEntry> = Vec::new();
    assert(numbered.skip(all.len() as int) =~= Seq::<(u32, EntryView)>::empty());
    assert(numbering::paired(numbers@, entry_views(ordered@)) =~= Seq::<
        (u32, EntryView),
    >::empty());
    while left.len() > 0
        invariant
            views == entry_views(all),
            numbered == views.map_values(|entry: EntryView| (entry.number, entry)),
            left@.len() <= all.len(),
            left@ == all.take(left@.len() as int),
            numbers.len() == ordered.len(),
            numbering::paired(numbers@, entry_views(ordered@)) == numbering::sorted(
                numbered.skip(left@.len() as int),
            ),
        decreases left@.len(),
    {
        if let Some(entry) = left.pop() {
            let ghost at = left@.len() as int;
            let ghost before = numbering::paired(numbers@, ordered@);
            let ghost before_views = numbering::paired(numbers@, entry_views(ordered@));
            assert(numbered.skip(at)[0] == (entry.number, entry@));
            assert(numbered.skip(at).drop_first() =~= numbered.skip(at + 1));
            let number = entry.number;
            insert_numbered(&mut numbers, &mut ordered, number, entry);
            proof {
                lemma_same_place(before, before_views, number, 0);
                lemma_place_in_range(before, number, 0);
                let after = numbering::paired(numbers@, ordered@);
                let spot = numbering::place(before, number, 0);
                assert(after == before.insert(spot, (number, entry)));
                assert(after.len() == before.len() + 1);
                let expected = before_views.insert(spot, (number, entry@));
                assert forall|i: int| 0 <= i < after.len() implies numbering::paired(
                    numbers@,
                    entry_views(ordered@),
                )[i] == #[trigger] expected[i] by {
                    assert(after[i] == (numbers@[i], ordered@[i]));
                    if i < spot {
                        assert(after[i] == before[i]);
                    } else if i > spot {
                        assert(after[i] == before[i - 1]);
                    }
                }
                assert(numbering::paired(numbers@, entry_views(ordered@)) =~= expected);
            }
            assert(left@ =~= all.take(at));
        }
    }
    assert(numbered.skip(0) =~= numbered);
    assert(entry_views(ordered@) =~= in_order(views));
    let mut removed: Vec<String> = Vec::new();
    assert(text::texts(removed@) =~= ids_of(finished_before(in_order(views), 0)));
    for i in 0..ordered.len()
        invariant
            entry_views(ordered@) == in_order(views),
            text::texts(removed@) == ids_of(finished_before(in_order(views), i as int)),
    {
        assert(in_order(views)[i as int] == ordered@[i as int]@);
        if ordered[i].finished {
            let ghost before = removed@;
            let id = ordered[i].id.clone();
            removed.push(id);
            assert(text::texts(removed@) =~= text::texts(before).push(id@));
            assert(ids_of(finished_before(in_order(views), i + 1)) =~= ids_of(
                finished_before(in_order(views), i as int),
            ).push(id@));
        }
    }
    let ghost done = finished_in_order(views);
    assert(text::texts(removed@).len() == ids_of(done).len());
    let surplus: usize = if removed.len() > keep {
        removed.len() - keep
    } else {
        0
    };
    assert(ids_of(done).take(done.len() as int) =~= ids_of(done));
    while removed.len() > surplus
        invariant
            surplus <= removed@.len() <= done.len(),
            text::texts(removed@) == ids_of(done).take(removed@.len() as int),
        decreases removed@.len(),
    {
        let ghost before = removed@;
        let _ = removed.pop();
        assert(text::texts(removed@) =~= ids_of(done).take(removed@.len() as int));
    }
    assert(ids_of(done).take(surplus as int) =~= ids_of(done.take(surplus as int)));
    removed
}

proof fn lemma_same_place(
    left: Seq<(u32, HistoryEntry)>,
    right: Seq<(u32, EntryView)>,
    number: u32,
    i: int,
)
    requires
        left.len() == right.len(),
        0 <= i <= left.len(),
        forall|j: int| 0 <= j < left.len() ==> (#[trigger] left[j]).0 == (#[trigger] right[j]).0,
    ensures
        numbering::place(left, number, i) == numbering::place(right, number, i),
    decreases left.len() - i,
{
    if i < left.len() {
        assert(left[i].0 == right[i].0);
        if left[i].0 < number {
            lemma_same_place(left, right, number, i + 1);
        }
    }
}

proof fn lemma_place_in_range(items: Seq<(u32, HistoryEntry)>, number: u32, i: int)
    requires
        0 <= i <= items.len(),
    ensures
        i <= numbering::place(items, number, i) <= items.len(),
    decreases items.len() - i,
{
    if i < items.len() && items[i].0 < number {
        lemma_place_in_range(items, number, i + 1);
    }
}

/// Numbers never fall.
pub open spec fn oldest_first(entries: Seq<EntryView>) -> bool {
    forall|i: int, j: int|
        0 <= i < j < entries.len() ==> (#[trigger] entries[i]).number <= (
        #[trigger] entries[j]).number
}

proof fn lemma_finished_before(entries: Seq<EntryView>, n: int)
    requires
        oldest_first(entries),
        0 <= n <= entries.len(),
    ensures
        oldest_first(finished_before(entries, n)),
        forall|i: int|
            0 <= i < finished_before(entries, n).len() ==> (#[trigger] finished_before(
                entries,
                n,
            )[i]).finished && entries.contains(finished_before(entries, n)[i]),
        forall|i: int, j: int|
            0 <= i < finished_before(entries, n).len() && n <= j < entries.len() ==> (
            #[trigger] finished_before(entries, n)[i]).number <= (#[trigger] entries[j]).number,
    decreases n,
{
    if n > 0 {
        lemma_finished_before(entries, n - 1);
    }
}

proof fn lemma_in_order(entries: Seq<EntryView>)
    ensures
        oldest_first(in_order(entries)),
        forall|i: int|
            0 <= i < in_order(entries).len() ==> entries.contains(#[trigger] in_order(entries)[i]),
{
    let numbered = entries.map_values(|entry: EntryView| (entry.number, entry));
    let sorted = numbering::sorted(numbered);
    numbering::lemma_sorted(numbered);
    assert forall|i: int| 0 <= i < sorted.len() implies numbered.contains(#[trigger] sorted[i]) by {
        broadcast use vstd::seq_lib::group_to_multiset_ensures;

        assert(sorted.contains(sorted[i]));
        assert(sorted.to_multiset().count(sorted[i]) > 0);
        assert(numbered.to_multiset().count(sorted[i]) > 0);
    }
    assert forall|i: int| 0 <= i < in_order(entries).len() implies entries.contains(
        #[trigger] in_order(entries)[i],
    ) && in_order(entries)[i].number == sorted[i].0 by {
        assert(numbered.contains(sorted[i]));
        let k = numbered.index_of(sorted[i]);
        assert(numbered[k] == sorted[i]);
        assert(entries[k] == in_order(entries)[i]);
    }
    assert forall|i: int, j: int| 0 <= i < j < in_order(entries).len() implies (
    #[trigger] in_order(entries)[i]).number <= (#[trigger] in_order(entries)[j]).number by {
        assert(sorted[i].0 <= sorted[j].0);
    }
}

/// Pruning takes only finished entries of the history, takes no more than are over the limit, and
/// takes none that is newer than a finished one that stays.
pub proof fn newest_finished_entries_stay(entries: Seq<EntryView>, keep: usize)
    ensures
        pruned(entries, keep).len() == surplus(entries, keep),
        forall|i: int|
            0 <= i < pruned(entries, keep).len() ==> (#[trigger] pruned(entries, keep)[i]).finished
                && entries.contains(pruned(entries, keep)[i]),
        forall|i: int, j: int|
            0 <= i < surplus(entries, keep) <= j < finished_in_order(entries).len() ==> (
            #[trigger] pruned(entries, keep)[i]).number <= (#[trigger] finished_in_order(
                entries,
            )[j]).number,
{
    let order = in_order(entries);
    lemma_in_order(entries);
    lemma_finished_before(order, order.len() as int);
    let done = finished_in_order(entries);
    assert forall|i: int| 0 <= i < pruned(entries, keep).len() implies (
    #[trigger] pruned(entries, keep)[i]).finished && entries.contains(pruned(entries, keep)[i]) by {
        assert(pruned(entries, keep)[i] == done[i]);
        let k = order.index_of(done[i]);
        assert(entries.contains(order[k]));
    }
}

/// The entry is finished.
pub open spec fn is_finished() -> spec_fn(EntryView) -> bool {
    |entry: EntryView| entry.finished
}

proof fn lemma_filtered(entries: Seq<EntryView>, n: int)
    requires
        0 <= n <= entries.len(),
    ensures
        finished_before(entries, n) == entries.take(n).filter(is_finished()),
    decreases n,
{
    reveal(Seq::filter);
    if n > 0 {
        lemma_filtered(entries, n - 1);
        assert(entries.take(n).drop_last() =~= entries.take(n - 1));
        assert(entries.take(n).last() == entries[n - 1]);
    }
}

proof fn lemma_one(entry: EntryView)
    ensures
        seq![entry].filter(is_finished()).len() == if entry.finished {
            1nat
        } else {
            0nat
        },
{
    reveal(Seq::filter);
    reveal_with_fuel(Seq::filter, 3);
    assert(seq![entry].drop_last() =~= Seq::<EntryView>::empty());
    assert(seq![entry].last() == entry);
}

proof fn lemma_sorting_keeps_finished(entries: Seq<EntryView>)
    ensures
        in_order(entries).filter(is_finished()).len() == entries.filter(is_finished()).len(),
        in_order(entries).len() == entries.len(),
    decreases entries.len(),
{
    let numbered = entries.map_values(|entry: EntryView| (entry.number, entry));
    numbering::lemma_sorted(numbered);
    if entries.len() == 0 {
        assert(in_order(entries) =~= entries);
    } else {
        let first = entries[0];
        let tail = entries.drop_first();
        lemma_sorting_keeps_finished(tail);
        let numbered_tail = tail.map_values(|entry: EntryView| (entry.number, entry));
        assert(numbered.drop_first() =~= numbered_tail);
        numbering::lemma_sorted(numbered_tail);
        let rest = numbering::sorted(numbered_tail);
        let at = numbering::place(rest, first.number, 0);
        numbering::lemma_place(rest, first.number, 0);
        assert(numbering::sorted(numbered) == rest.insert(at, numbered[0]));
        let others = in_order(tail);
        assert(in_order(entries) =~= others.take(at) + (seq![first] + others.skip(at)));
        assert(others =~= others.take(at) + others.skip(at));
        assert(entries =~= seq![first] + tail);
        Seq::filter_distributes_over_add(seq![first], tail, is_finished());
        Seq::filter_distributes_over_add(
            others.take(at),
            seq![first] + others.skip(at),
            is_finished(),
        );
        Seq::filter_distributes_over_add(seq![first], others.skip(at), is_finished());
        Seq::filter_distributes_over_add(others.take(at), others.skip(at), is_finished());
        lemma_one(first);
    }
}

proof fn lemma_finished_stays(entries: Seq<EntryView>, n: int, i: int) -> (at: int)
    requires
        0 <= i < n <= entries.len(),
        entries[i].finished,
    ensures
        0 <= at < finished_before(entries, n).len(),
        finished_before(entries, n)[at] == entries[i],
    decreases n,
{
    if i == n - 1 {
        finished_before(entries, i).len() as int
    } else {
        lemma_finished_stays(entries, n - 1, i)
    }
}

/// What pruning does with entries of a history that have different ids: as many go as there are finished
/// ones beyond those that are kept; none goes that is not finished; and of two finished ones of which
/// only one stays, it is not the older one.
pub proof fn lemma_pruning(entries: Seq<EntryView>, keep: usize, a: int, b: int)
    requires
        0 <= a < entries.len(),
        0 <= b < entries.len(),
        forall|i: int, j: int|
            0 <= i < j < entries.len() ==> (#[trigger] entries[i]).id != (#[trigger] entries[j]).id,
    ensures
        ({
            let removed = ids_of(pruned(entries, keep));
            let total = entries.filter(is_finished()).len();
            &&& removed.len() == if total > keep {
                total - keep
            } else {
                0
            }
            &&& removed.contains(entries[a].id) ==> entries[a].finished
            &&& removed.contains(entries[a].id) && entries[b].finished && !removed.contains(
                entries[b].id,
            ) ==> entries[a].number <= entries[b].number
            &&& keep == 0 && entries[a].finished ==> removed.contains(entries[a].id)
        }),
{
    let order = in_order(entries);
    let done = finished_in_order(entries);
    let gone = pruned(entries, keep);
    let removed = ids_of(gone);
    lemma_sorting_keeps_finished(entries);
    lemma_filtered(order, order.len() as int);
    assert(order.take(order.len() as int) =~= order);
    newest_finished_entries_stay(entries, keep);
    if removed.contains(entries[a].id) {
        let i = removed.index_of(entries[a].id);
        assert(removed[i] == gone[i].id);
        let k = entries.index_of(gone[i]);
        assert(entries[k].id == entries[a].id);
        assert(k == a);
        if entries[b].finished && !removed.contains(entries[b].id) {
            let j = lemma_place_of_finished(entries, b);
            if j < gone.len() {
                assert(gone[j] == done[j]);
                assert(removed[j] == entries[b].id);
            }
            assert(gone[i].number <= done[j].number);
        }
    }
    if keep == 0 && entries[a].finished {
        let j = lemma_place_of_finished(entries, a);
        assert(gone[j] == done[j]);
        assert(removed[j] == entries[a].id);
    }
}

proof fn lemma_place_of_finished(entries: Seq<EntryView>, i: int) -> (at: int)
    requires
        0 <= i < entries.len(),
        entries[i].finished,
    ensures
        0 <= at < finished_in_order(entries).len(),
        finished_in_order(entries)[at] == entries[i],
{
    let numbered = entries.map_values(|entry: EntryView| (entry.number, entry));
    let place = numbering::lemma_item_stays(numbered, i);
    let order = in_order(entries);
    assert(order[place] == numbered[i].1);
    lemma_finished_stays(order, order.len() as int, place)
}

/// Pruning takes as many entries as there are finished ones beyond those that are kept, only finished
/// ones, and the oldest of them. With nothing to keep it takes every finished one.
pub proof fn oldest_finished_entries_go(
    entries: Vec<HistoryEntry>,
    keep: usize,
    removed: Vec<String>,
    a: int,
    b: int,
)
    requires
        call_ensures(prune, (entries, keep), removed),
        0 <= a < entries@.len(),
        0 <= b < entries@.len(),
        forall|i: int, j: int|
            0 <= i < j < entries@.len() ==> (#[trigger] entries@[i]).id@ != (
            #[trigger] entries@[j]).id@,
    ensures
        ({
            let gone = text::texts(removed@);
            let total = entry_views(entries@).filter(|entry: EntryView| entry.finished).len();
            &&& removed@.len() == if total > keep {
                total - keep
            } else {
                0
            }
            &&& gone.contains(entries@[a].id@) ==> entries@[a].finished
            &&& gone.contains(entries@[a].id@) && entries@[b].finished && !gone.contains(
                entries@[b].id@,
            ) ==> entries@[a].number <= entries@[b].number
            &&& keep == 0 && entries@[a].finished ==> gone.contains(entries@[a].id@)
        }),
{
    let views = entry_views(entries@);
    assert forall|i: int, j: int| 0 <= i < j < views.len() implies (#[trigger] views[i]).id != (
    #[trigger] views[j]).id by {
        assert(entries@[i].id@ != entries@[j].id@);
    }
    lemma_pruning(views, keep, a, b);
    assert(views[a] == entries@[a]@);
    assert(views[b] == entries@[b]@);
    assert(text::texts(removed@).len() == removed@.len());
    assert(is_finished() =~= |entry: EntryView| entry.finished);
}

} // verus!
