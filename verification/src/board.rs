//! A board of numbered slots. Results arrive in whatever order the requests
//! finish; each is put in the slot of its own request, and the board is read
//! out in the order of the requests.

use vstd::prelude::*;
use vstd::set_lib::{lemma_int_range, lemma_len_subset, lemma_subset_equality, set_int_range};

verus! {

/// A board of `len` slots with nothing in them.
pub open spec fn vacant<T>(len: nat) -> Seq<Option<T>> {
    Seq::new(len, |i: int| None::<T>)
}

/// Whether an item can be put at `index`: the slot exists and is empty.
pub open spec fn can_place<T>(slots: Seq<Option<T>>, index: int) -> bool {
    0 <= index < slots.len() && slots[index] is None
}

/// The slots after an item has arrived for `index`. An arrival for a slot
/// that does not exist, or that is taken, changes nothing.
pub open spec fn spec_place<T>(slots: Seq<Option<T>>, index: int, item: T) -> Seq<Option<T>> {
    if can_place(slots, index) {
        slots.update(index, Some(item))
    } else {
        slots
    }
}

/// The slots after a run of arrivals, taken first to last.
pub open spec fn place_all<T>(slots: Seq<Option<T>>, arrivals: Seq<(usize, T)>) -> Seq<Option<T>>
    decreases arrivals.len(),
{
    if arrivals.len() == 0 {
        slots
    } else {
        let last = arrivals.last();
        spec_place(place_all(slots, arrivals.drop_last()), last.0 as int, last.1)
    }
}

/// Whether every slot holds an item.
pub open spec fn complete<T>(slots: Seq<Option<T>>) -> bool {
    forall|i: int| 0 <= i < slots.len() ==> (#[trigger] slots[i]) is Some
}

/// The items of a complete board, in the order of the slots.
pub open spec fn contents<T>(slots: Seq<Option<T>>) -> Seq<T> {
    Seq::new(slots.len(), |i: int| slots[i]->Some_0)
}

/// What gathering a run of arrivals on a fresh board of `len` slots gives:
/// the items in slot order where every slot was filled, and nothing where
/// one was left empty.
pub open spec fn spec_gather<T>(len: nat, arrivals: Seq<(usize, T)>) -> Option<Seq<T>> {
    let slots = place_all(vacant::<T>(len), arrivals);
    if complete(slots) {
        Some(contents(slots))
    } else {
        None
    }
}

/// Whether every arrival names a slot of the board, and no two name the same.
pub open spec fn reports_at_most_once<T>(len: nat, arrivals: Seq<(usize, T)>) -> bool {
    &&& forall|j: int| 0 <= j < arrivals.len() ==> (#[trigger] arrivals[j]).0 < len
    &&& forall|j: int, k: int|
        0 <= j < k < arrivals.len() ==> (#[trigger] arrivals[j]).0 != (#[trigger] arrivals[k]).0
}

/// Whether every request of a batch of `len` reports exactly once.
pub open spec fn reports_each_once<T>(len: nat, arrivals: Seq<(usize, T)>) -> bool {
    arrivals.len() == len && reports_at_most_once(len, arrivals)
}

/// Whether some arrival names the slot `index`.
pub open spec fn reported<T>(arrivals: Seq<(usize, T)>, index: int) -> bool {
    exists|j: int| 0 <= j < arrivals.len() && (#[trigger] arrivals[j]).0 == index
}

/// Arrivals never change the number of slots.
pub proof fn lemma_place_all_keeps_len<T>(slots: Seq<Option<T>>, arrivals: Seq<(usize, T)>)
    ensures
        place_all(slots, arrivals).len() == slots.len(),
    decreases arrivals.len(),
{
    if arrivals.len() > 0 {
        lemma_place_all_keeps_len(slots, arrivals.drop_last());
    }
}

/// Whether no arrival before the one at `j` names the same slot.
pub open spec fn is_first_report<T>(arrivals: Seq<(usize, T)>, j: int) -> bool {
    forall|k: int| 0 <= k < j ==> (#[trigger] arrivals[k]).0 != arrivals[j].0
}

/// What a run of arrivals leaves on a fresh board, for every run: a slot holds
/// an item exactly if some arrival names it, and the item it holds is that of
/// the first arrival that does.
pub proof fn lemma_first_report_fills_slot<T>(len: nat, arrivals: Seq<(usize, T)>)
    ensures
        place_all(vacant::<T>(len), arrivals).len() == len,
        forall|i: int|
            0 <= i < len ==> ((#[trigger] place_all(vacant::<T>(len), arrivals)[i]) is Some
                <==> reported(arrivals, i)),
        forall|j: int|
            0 <= j < arrivals.len() && (#[trigger] arrivals[j]).0 < len && is_first_report(
                arrivals,
                j,
            ) ==> place_all(vacant::<T>(len), arrivals)[arrivals[j].0 as int] == Some(
                arrivals[j].1,
            ),
    decreases arrivals.len(),
{
    let slots = place_all(vacant::<T>(len), arrivals);
    if arrivals.len() > 0 {
        let before = arrivals.drop_last();
        let last = arrivals.last();
        let earlier = place_all(vacant::<T>(len), before);
        lemma_first_report_fills_slot(len, before);
        assert forall|i: int| reported(before, i) implies reported(arrivals, i) by {
            let j = choose|j: int| 0 <= j < before.len() && (#[trigger] before[j]).0 == i;
            assert(arrivals[j] == before[j]);
        }
        assert forall|i: int| reported(arrivals, i) && i != last.0 implies reported(before, i) by {
            let j = choose|j: int| 0 <= j < arrivals.len() && (#[trigger] arrivals[j]).0 == i;
            assert(before[j] == arrivals[j]);
        }
        assert forall|j: int|
            0 <= j < arrivals.len() && (#[trigger] arrivals[j]).0 < len && is_first_report(
                arrivals,
                j,
            ) implies slots[arrivals[j].0 as int] == Some(arrivals[j].1) by {
            if j < before.len() {
                assert(is_first_report(before, j));
                assert(earlier[before[j].0 as int] == Some(before[j].1));
            }
        }
    } else {
        assert forall|i: int| 0 <= i < len implies !reported(arrivals, i) by {}
    }
}

/// A run of arrivals gathers to a full batch exactly when every slot of the
/// board is named by some arrival.
pub proof fn lemma_gathers_when_all_reported<T>(len: nat, arrivals: Seq<(usize, T)>)
    ensures
        spec_gather(len, arrivals) is Some <==> (forall|i: int|
            0 <= i < len ==> reported(arrivals, i)),
{
    let slots = place_all(vacant::<T>(len), arrivals);
    lemma_first_report_fills_slot(len, arrivals);
    if forall|i: int| 0 <= i < len ==> reported(arrivals, i) {
        assert forall|i: int| 0 <= i < slots.len() implies (#[trigger] slots[i]) is Some by {
            assert(reported(arrivals, i));
        }
    } else {
        let i = choose|i: int| 0 <= i < len && !reported(arrivals, i);
        assert(slots[i] is None);
    }
}

/// Order is kept whatever the order of completion: when no request reports
/// twice, each item is found in the slot of its own request, wherever in the
/// run it arrived, and a slot that no arrival names stays empty.
pub proof fn lemma_each_in_its_own_slot<T>(len: nat, arrivals: Seq<(usize, T)>)
    requires
        reports_at_most_once(len, arrivals),
    ensures
        place_all(vacant::<T>(len), arrivals).len() == len,
        forall|j: int|
            0 <= j < arrivals.len() ==> place_all(vacant::<T>(len), arrivals)[(
            #[trigger] arrivals[j]).0 as int] == Some(arrivals[j].1),
        forall|i: int|
            0 <= i < len && !reported(arrivals, i) ==> (#[trigger] place_all(
                vacant::<T>(len),
                arrivals,
            )[i]) is None,
{
    lemma_first_report_fills_slot(len, arrivals);
    assert forall|j: int| 0 <= j < arrivals.len() implies is_first_report(arrivals, j) by {}
}

/// Every slot is named when every request reports exactly once.
pub proof fn lemma_every_slot_reported<T>(len: nat, arrivals: Seq<(usize, T)>)
    requires
        reports_each_once(len, arrivals),
    ensures
        forall|i: int| 0 <= i < len ==> reported(arrivals, i),
{
    let named = Seq::new(arrivals.len(), |j: int| arrivals[j].0 as int);
    let range = set_int_range(0, len as int);
    assert(named.no_duplicates()) by {
        assert forall|j: int, k: int|
            0 <= j < named.len() && 0 <= k < named.len() && j != k implies named[j]
            != named[k] by {
            assert(arrivals[j].0 != arrivals[k].0);
        }
    }
    named.unique_seq_to_set();
    lemma_int_range(0, len as int);
    assert(named.to_set().subset_of(range)) by {
        assert forall|i: int| named.to_set().contains(i) implies range.contains(i) by {
            let j = choose|j: int| 0 <= j < named.len() && named[j] == i;
            assert(arrivals[j].0 < len);
        }
    }
    lemma_len_subset(named.to_set(), range);
    lemma_subset_equality(named.to_set(), range);
    assert forall|i: int| 0 <= i < len implies reported(arrivals, i) by {
        assert(named.to_set().contains(i));
        let j = choose|j: int| 0 <= j < named.len() && named[j] == i;
        assert(arrivals[j].0 == i);
    }
}

/// A batch in which every request reports exactly once gathers to one item
/// for each request, each in the place of its request, in whatever order the
/// reports came.
pub proof fn lemma_full_batch_gathers<T>(len: nat, arrivals: Seq<(usize, T)>)
    requires
        reports_each_once(len, arrivals),
    ensures
        spec_gather(len, arrivals) is Some,
        spec_gather(len, arrivals)->Some_0.len() == len,
        forall|j: int|
            0 <= j < arrivals.len() ==> spec_gather(len, arrivals)->Some_0[(
            #[trigger] arrivals[j]).0 as int] == arrivals[j].1,
{
    lemma_every_slot_reported(len, arrivals);
    lemma_first_report_fills_slot(len, arrivals);
    lemma_each_in_its_own_slot(len, arrivals);
}

/// A batch with no request gathers to no item.
pub proof fn lemma_empty_batch_gathers<T>()
    ensures
        spec_gather(0, Seq::<(usize, T)>::empty()) == Some(Seq::<T>::empty()),
{
    assert(contents(vacant::<T>(0)) =~= Seq::<T>::empty());
}

/// Two runs that bring the same items for the same requests fill the board
/// alike, in whatever order each of them brings them.
pub proof fn lemma_arrival_order_is_irrelevant<T>(
    len: nat,
    first: Seq<(usize, T)>,
    second: Seq<(usize, T)>,
)
    requires
        reports_at_most_once(len, first),
        reports_at_most_once(len, second),
        forall|j: int| 0 <= j < first.len() ==> second.contains(#[trigger] first[j]),
        forall|k: int| 0 <= k < second.len() ==> first.contains(#[trigger] second[k]),
    ensures
        place_all(vacant::<T>(len), first) == place_all(vacant::<T>(len), second),
        spec_gather(len, first) == spec_gather(len, second),
{
    let a = place_all(vacant::<T>(len), first);
    let b = place_all(vacant::<T>(len), second);
    lemma_each_in_its_own_slot(len, first);
    lemma_each_in_its_own_slot(len, second);
    assert forall|i: int| 0 <= i < len implies a[i] == b[i] by {
        if reported(first, i) {
            let j = choose|j: int| 0 <= j < first.len() && (#[trigger] first[j]).0 == i;
            let k = choose|k: int| 0 <= k < second.len() && second[k] == first[j];
            assert(a[i] == Some(first[j].1) && b[i] == Some(second[k].1));
        } else if reported(second, i) {
            let k = choose|k: int| 0 <= k < second.len() && (#[trigger] second[k]).0 == i;
            let j = choose|j: int| 0 <= j < first.len() && first[j] == second[k];
            assert(first[j].0 == i);
        }
    }
    assert(a =~= b);
}

/// The reports that are meant for one of two batches, out of a run in which
/// the reports of both are mixed. Each report of the run says whether it is
/// for the second batch, and then names its request and brings its item.
pub open spec fn reports_for<T>(mixed: Seq<(bool, usize, T)>, second: bool) -> Seq<(usize, T)>
    decreases mixed.len(),
{
    if mixed.len() == 0 {
        Seq::empty()
    } else {
        let last = mixed.last();
        let earlier = reports_for(mixed.drop_last(), second);
        if last.0 == second {
            earlier.push((last.1, last.2))
        } else {
            earlier
        }
    }
}

/// The boards of two batches after a mixed run of reports, each report put
/// on the board of its own batch.
pub open spec fn place_on_two<T>(
    boards: (Seq<Option<T>>, Seq<Option<T>>),
    mixed: Seq<(bool, usize, T)>,
) -> (Seq<Option<T>>, Seq<Option<T>>)
    decreases mixed.len(),
{
    if mixed.len() == 0 {
        boards
    } else {
        let last = mixed.last();
        let earlier = place_on_two(boards, mixed.drop_last());
        if last.0 {
            (earlier.0, spec_place(earlier.1, last.1 as int, last.2))
        } else {
            (spec_place(earlier.0, last.1 as int, last.2), earlier.1)
        }
    }
}

/// Two batches at the same time do not interfere: however their reports are
/// mixed, each board ends as its own reports alone would have left it.
pub proof fn lemma_batches_do_not_interfere<T>(
    first: Seq<Option<T>>,
    second: Seq<Option<T>>,
    mixed: Seq<(bool, usize, T)>,
)
    ensures
        place_on_two((first, second), mixed) == (
            place_all(first, reports_for(mixed, false)),
            place_all(second, reports_for(mixed, true)),
        ),
    decreases mixed.len(),
{
    if mixed.len() > 0 {
        let last = mixed.last();
        lemma_batches_do_not_interfere(first, second, mixed.drop_last());
        let own = reports_for(mixed.drop_last(), last.0);
        assert(own.push((last.1, last.2)).drop_last() =~= own);
    }
}

/// The slots of one batch.
pub struct Board<T> {
    slots: Vec<Option<T>>,
}

impl<T> View for Board<T> {
    type V = Seq<Option<T>>;

    closed spec fn view(&self) -> Seq<Option<T>> {
        self.slots@
    }
}

impl<T> Board<T> {
    /// A board of `len` empty slots.
    pub fn new(len: usize) -> (board: Board<T>)
        ensures
            board@ == vacant::<T>(len as nat),
    {
        let mut slots: Vec<Option<T>> = Vec::new();
        while slots.len() < len
            invariant
                slots@.len() <= len,
                forall|i: int| 0 <= i < slots@.len() ==> (#[trigger] slots@[i]) is None,
            decreases len - slots@.len(),
        {
            slots.push(None);
        }
        Board { slots }
    }

    /// The number of slots.
    pub fn len(&self) -> (len: usize)
        ensures
            len == self@.len(),
    {
        self.slots.len()
    }

    /// Puts `item` in the slot `index`, if that slot exists and is empty, and
    /// says whether it did. No other slot changes.
    pub fn place(&mut self, index: usize, item: T) -> (placed: bool)
        ensures
            placed == can_place(old(self)@, index as int),
            final(self)@ == spec_place(old(self)@, index as int, item),
    {
        if index < self.slots.len() && self.slots[index].is_none() {
            self.slots.set(index, Some(item));
            true
        } else {
            false
        }
    }

    /// Hands out the items in slot order, if every slot holds one.
    pub fn into_items(self) -> (items: Option<Vec<T>>)
        ensures
            complete(self@) ==> items is Some && items->Some_0@ == contents(self@),
            !complete(self@) ==> items is None,
    {
        let ghost all = self.slots@;
        let mut items: Vec<T> = Vec::new();
        for slot in it: self.slots
            invariant
                it.seq() == all,
                items@.len() == it.index(),
                forall|i: int| 0 <= i < items@.len() ==> all[i] == Some(#[trigger] items@[i]),
        {
            match slot {
                Some(item) => {
                    items.push(item);
                },
                None => {
                    return None;
                },
            }
        }
        assert forall|i: int| 0 <= i < all.len() implies (#[trigger] all[i]) is Some by {
            assert(all[i] == Some(items@[i]));
        }
        Some(items)
    }
}

/// Gathers a whole run of arrivals, each an item with the number of its
/// request, on a fresh board of `len` slots.
pub fn gather<T>(len: usize, arrivals: Vec<(usize, T)>) -> (items: Option<Vec<T>>)
    ensures
        match spec_gather(len as nat, arrivals@) {
            Some(expected) => items is Some && items->Some_0@ == expected,
            None => items is None,
        },
        items matches Some(all) ==> all@.len() == len,
{
    let ghost all = arrivals@;
    let mut board: Board<T> = Board::new(len);
    for arrival in it: arrivals
        invariant
            it.seq() == all,
            board@ == place_all(vacant::<T>(len as nat), all.take(it.index() as int)),
    {
        let (index, item) = arrival;
        proof {
            let n = it.index() as int;
            assert(all.take(n + 1).drop_last() =~= all.take(n));
        }
        board.place(index, item);
    }
    proof {
        assert(all.take(all.len() as int) =~= all);
        lemma_place_all_keeps_len(vacant::<T>(len as nat), all);
    }
    board.into_items()
}

} // verus!
