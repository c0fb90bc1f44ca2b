//! Putting what has a size in order, the largest first.

use vstd::prelude::*;

verus! {

/// The views of `items`, in order.
pub open spec fn views<T: View>(items: Seq<T>) -> Seq<T::V> {
    items.map_values(|item: T| item@)
}

/// A value that has a size.
pub trait Measured: View {
    /// The size of a value, by its view.
    spec fn measure(value: Self::V) -> nat;

    /// The size of the value.
    fn size(&self) -> (size: u128)
        ensures
            size == Self::measure(self@),
    ;
}

/// `sorted` with `item` put in behind every item that is not smaller than
/// it.
pub open spec fn inserted<T: Measured>(sorted: Seq<T::V>, item: T::V) -> Seq<T::V>
    decreases sorted.len(),
{
    if sorted.len() > 0 && T::measure(sorted.last()) < T::measure(item) {
        inserted::<T>(sorted.drop_last(), item).push(sorted.last())
    } else {
        sorted.push(item)
    }
}

/// `items` in the order of their sizes, the largest first; those of one
/// size stay in the order in which they stand in `items`.
pub open spec fn largest_first<T: Measured>(items: Seq<T::V>) -> Seq<T::V>
    decreases items.len(),
{
    if items.len() == 0 {
        Seq::empty()
    } else {
        inserted::<T>(largest_first::<T>(items.drop_last()), items.last())
    }
}

/// Whether no item of `items` is smaller than one behind it.
pub open spec fn is_largest_first<T: Measured>(items: Seq<T::V>) -> bool {
    forall|i: int, j: int|
        0 <= i <= j < items.len() ==> T::measure(#[trigger] items[i]) >= T::measure(
            #[trigger] items[j],
        )
}

/// Whether `at` is the place of `item` in `sorted`: every item from there
/// on is smaller than `item`, and the one before is not.
pub open spec fn is_place<T: Measured>(sorted: Seq<T::V>, item: T::V, at: int) -> bool {
    &&& 0 <= at <= sorted.len()
    &&& forall|k: int| at <= k < sorted.len() ==> T::measure(#[trigger] sorted[k]) < T::measure(item)
    &&& at > 0 ==> T::measure(sorted[at - 1]) >= T::measure(item)
}

/// An item is put in at its place.
pub proof fn lemma_inserted_at<T: Measured>(sorted: Seq<T::V>, item: T::V, at: int)
    requires
        is_place::<T>(sorted, item, at),
    ensures
        inserted::<T>(sorted, item) == sorted.insert(at, item),
    decreases sorted.len() - at,
{
    if at < sorted.len() {
        assert(T::measure(sorted[sorted.len() - 1]) < T::measure(item));
        lemma_inserted_at::<T>(sorted.drop_last(), item, at);
        assert(sorted.drop_last().insert(at, item).push(sorted.last()) == sorted.insert(at, item));
    } else {
        assert(sorted.push(item) == sorted.insert(at, item));
    }
}

/// Every item has a place.
pub proof fn lemma_place_exists<T: Measured>(sorted: Seq<T::V>, item: T::V) -> (at: int)
    ensures
        is_place::<T>(sorted, item, at),
    decreases sorted.len(),
{
    if sorted.len() > 0 && T::measure(sorted.last()) < T::measure(item) {
        let at = lemma_place_exists::<T>(sorted.drop_last(), item);
        assert forall|k: int| at <= k < sorted.len() implies T::measure(#[trigger] sorted[k])
            < T::measure(item) by {
            if k < sorted.len() - 1 {
                assert(sorted.drop_last()[k] == sorted[k]);
            }
        }
        if at > 0 {
            assert(sorted.drop_last()[at - 1] == sorted[at - 1]);
        }
        at
    } else {
        sorted.len() as int
    }
}

/// Puts `items` in the order of their sizes, the largest first. Items of
/// one size keep their order.
pub fn sort_largest_first<T: Measured>(items: &mut Vec<T>)
    ensures
        views(final(items)@) == largest_first::<T>(views(old(items)@)),
{
    let ghost start = views(items@);
    let mut k: usize = 0;
    assert(views(items@).take(0) == largest_first::<T>(start.take(0)));
    while k < items.len()
        invariant
            k <= items@.len(),
            items@.len() == start.len(),
            views(items@).take(k as int) == largest_first::<T>(start.take(k as int)),
            views(items@).skip(k as int) == start.skip(k as int),
        decreases items@.len() - k,
    {
        let ghost before = views(items@);
        let ghost sorted = before.take(k as int);
        let item = items.remove(k);
        let ghost mid = views(items@);
        proof {
            assert(before.skip(k as int)[0] == start.skip(k as int)[0]);
            assert(item@ == start[k as int]);
            assert(mid == before.remove(k as int));
            assert(mid.take(k as int) == sorted);
            assert(mid.skip(k as int) == before.skip(k as int).drop_first());
            assert(start.skip(k as int).drop_first() == start.skip(k + 1));
        }
        let size = item.size();
        let mut at: usize = k;
        while at > 0 && items[at - 1].size() < size
            invariant
                at <= k <= items@.len(),
                views(items@) == mid,
                mid.take(k as int) == sorted,
                size == T::measure(item@),
                forall|j: int| at <= j < k ==> T::measure(#[trigger] sorted[j]) < T::measure(item@),
            decreases at,
        {
            assert(sorted[at - 1] == mid[at - 1]);
            at -= 1;
        }
        proof {
            if at > 0 {
                assert(sorted[at - 1] == mid[at - 1]);
            }
        }
        items.insert(at, item);
        proof {
            lemma_inserted_at::<T>(sorted, item@, at as int);
            assert(views(items@) == mid.insert(at as int, item@));
            assert(start.take(k + 1).drop_last() == start.take(k as int));
            assert(start.take(k + 1).last() == item@);
            assert(views(items@).take(k + 1) == sorted.insert(at as int, item@));
            assert(views(items@).skip(k + 1) == mid.skip(k as int));
        }
        k += 1;
    }
    assert(views(items@).take(k as int) == views(items@));
    assert(start.take(k as int) == start);
}

/// What is put in order has the largest first.
pub proof fn lemma_largest_first_is_ordered<T: Measured>(items: Seq<T::V>)
    ensures
        is_largest_first::<T>(largest_first::<T>(items)),
    decreases items.len(),
{
    if items.len() > 0 {
        let sorted = largest_first::<T>(items.drop_last());
        let item = items.last();
        lemma_largest_first_is_ordered::<T>(items.drop_last());
        let at = lemma_place_exists::<T>(sorted, item);
        lemma_inserted_at::<T>(sorted, item, at);
        let out = sorted.insert(at, item);
        assert forall|i: int, j: int| 0 <= i <= j < out.len() implies T::measure(
            #[trigger] out[i],
        ) >= T::measure(#[trigger] out[j]) by {
            if i < at && j > at {
                assert(T::measure(sorted[i]) >= T::measure(sorted[j - 1]));
            } else if i < at && j < at {
                assert(T::measure(sorted[i]) >= T::measure(sorted[j]));
            } else if i < at && j == at {
                assert(T::measure(sorted[i]) >= T::measure(sorted[at - 1]));
            } else if i == at && j > at {
                assert(T::measure(sorted[j - 1]) < T::measure(item));
            } else if i > at {
                assert(T::measure(sorted[i - 1]) >= T::measure(sorted[j - 1]));
            }
        }
    }
}

/// What is put in order holds the same items, each as often as before.
pub proof fn lemma_largest_first_is_permutation<T: Measured>(items: Seq<T::V>)
    ensures
        largest_first::<T>(items).len() == items.len(),
        largest_first::<T>(items).to_multiset() == items.to_multiset(),
    decreases items.len(),
{
    if items.len() > 0 {
        let sorted = largest_first::<T>(items.drop_last());
        let item = items.last();
        lemma_largest_first_is_permutation::<T>(items.drop_last());
        let at = lemma_place_exists::<T>(sorted, item);
        lemma_inserted_at::<T>(sorted, item, at);
        vstd::seq_lib::to_multiset_insert(sorted, at, item);
        vstd::seq_lib::to_multiset_build(items.drop_last(), item);
        assert(items.drop_last().push(item) == items);
    } else {
        assert(items == Seq::<T::V>::empty());
    }
}

/// A sequence of which no item meets `keep` has nothing to keep.
proof fn lemma_filter_none<A>(items: Seq<A>, keep: spec_fn(A) -> bool)
    requires
        forall|i: int| 0 <= i < items.len() ==> !keep(#[trigger] items[i]),
    ensures
        items.filter(keep) == Seq::<A>::empty(),
    decreases items.len(),
{
    reveal(Seq::filter);
    if items.len() > 0 {
        assert forall|i: int| 0 <= i < items.drop_last().len() implies !keep(
            #[trigger] items.drop_last()[i],
        ) by {
            assert(items.drop_last()[i] == items[i]);
        }
        lemma_filter_none(items.drop_last(), keep);
    }
}

/// The items of one size stand in the order in which they stood before.
pub proof fn lemma_largest_first_is_stable<T: Measured>(items: Seq<T::V>, size: nat)
    ensures
        largest_first::<T>(items).filter(|item: T::V| T::measure(item) == size) == items.filter(
            |item: T::V| T::measure(item) == size,
        ),
    decreases items.len(),
{
    let keep = |item: T::V| T::measure(item) == size;
    reveal(Seq::filter);
    if items.len() > 0 {
        let sorted = largest_first::<T>(items.drop_last());
        let item = items.last();
        lemma_largest_first_is_stable::<T>(items.drop_last(), size);
        let at = lemma_place_exists::<T>(sorted, item);
        lemma_inserted_at::<T>(sorted, item, at);
        let head = sorted.take(at);
        let tail = sorted.skip(at);
        assert(sorted.insert(at, item) == head + seq![item] + tail);
        assert(sorted == head + tail);
        Seq::filter_distributes_over_add(head + seq![item], tail, keep);
        Seq::filter_distributes_over_add(head, seq![item], keep);
        Seq::filter_distributes_over_add(head, tail, keep);
        assert(seq![item].drop_last() == Seq::<T::V>::empty());
        assert(Seq::<T::V>::empty().filter(keep) == Seq::<T::V>::empty());
        if keep(item) {
            assert forall|i: int| 0 <= i < tail.len() implies !keep(#[trigger] tail[i]) by {
                assert(tail[i] == sorted[at + i]);
            }
            lemma_filter_none(tail, keep);
            assert(seq![item].filter(keep) == seq![item]);
            assert(head.filter(keep) + seq![item] + Seq::<T::V>::empty() == (head.filter(keep)
                + Seq::<T::V>::empty()).push(item));
        } else {
            assert(seq![item].filter(keep) == Seq::<T::V>::empty());
            assert(head.filter(keep) + Seq::<T::V>::empty() + tail.filter(keep) == head.filter(
                keep,
            ) + tail.filter(keep));
        }
    }
}

} // verus!
