//! Small operations on vectors that the stages share.

use vstd::prelude::*;

verus! {

/// The items of `items` in opposite order.
///
/// Popping from the result walks `items` front to back while taking each item
/// by value.
pub fn reversed<T>(items: Vec<T>) -> (flipped: Vec<T>)
    ensures
        flipped@.len() == items@.len(),
        forall|k: int| 0 <= k < items@.len() ==> #[trigger] flipped@[k] == items@[items@.len() - 1 - k],
{
    let ghost all = items@;
    let mut rest = items;
    let mut flipped: Vec<T> = Vec::new();
    while rest.len() > 0
        invariant
            rest@.len() + flipped@.len() == all.len(),
            rest@ == all.take(rest@.len() as int),
            forall|k: int| 0 <= k < flipped@.len() ==> #[trigger] flipped@[k] == all[all.len() - 1 - k],
        decreases rest.len(),
    {
        let item = rest.pop().unwrap();
        flipped.push(item);
    }
    flipped
}


/// The items of `items` whose position is marked in `mask`, in order.
pub open spec fn masked<T>(items: Seq<T>, mask: Seq<bool>) -> Seq<T>
    decreases items.len(),
{
    if items.len() == 0 || mask.len() != items.len() {
        Seq::empty()
    } else if mask.last() {
        masked(items.drop_last(), mask.drop_last()).push(items.last())
    } else {
        masked(items.drop_last(), mask.drop_last())
    }
}

/// A mask that marks exactly the items satisfying `keep` selects what
/// filtering by `keep` selects.
pub proof fn lemma_masked_is_filter<T>(items: Seq<T>, mask: Seq<bool>, keep: spec_fn(T) -> bool)
    requires
        mask.len() == items.len(),
        forall|i: int| 0 <= i < items.len() ==> #[trigger] mask[i] == keep(items[i]),
    ensures
        masked(items, mask) == items.filter(keep),
    decreases items.len(),
{
    reveal(Seq::filter);
    if items.len() > 0 {
        lemma_masked_is_filter(items.drop_last(), mask.drop_last(), keep);
        assert(mask.last() == keep(items.last()));
    }
}

/// Keeps the items whose position is marked in `mask`, in their order.
pub fn retain_masked<T>(items: Vec<T>, mask: &Vec<bool>) -> (kept: Vec<T>)
    requires
        mask@.len() == items@.len(),
    ensures
        kept@ == masked(items@, mask@),
{
    let ghost all = items@;
    let ghost n = all.len() as int;
    let mut rest = reversed(items);
    let mut kept: Vec<T> = Vec::new();
    let mut i: usize = 0;
    assert(masked(all.take(0), mask@.take(0)) =~= Seq::<T>::empty());
    while i < mask.len()
        invariant
            n == all.len(),
            mask@.len() == n,
            i <= n,
            rest@.len() == n - i,
            forall|k: int| 0 <= k < rest@.len() ==> #[trigger] rest@[k] == all[n - 1 - k],
            kept@ == masked(all.take(i as int), mask@.take(i as int)),
        decreases mask.len() - i,
    {
        let item = rest.pop().unwrap();
        proof {
            assert(item == all[i as int]);
            assert(all.take(i + 1).drop_last() =~= all.take(i as int));
            assert(mask@.take(i + 1).drop_last() =~= mask@.take(i as int));
        }
        if mask[i] {
            kept.push(item);
        }
        i += 1;
    }
    proof {
        assert(all.take(i as int) =~= all);
        assert(mask@.take(i as int) =~= mask@);
    }
    kept
}

/// Whether `picks` names positions below `len` in rising order.
pub open spec fn rising_below(picks: Seq<int>, len: int) -> bool {
    &&& forall|k: int| 0 <= k < picks.len() ==> 0 <= #[trigger] picks[k] < len
    &&& forall|j: int, k: int| 0 <= j < k < picks.len() ==> #[trigger] picks[j] < #[trigger] picks[k]
}

/// How a filter treats a sequence: what it keeps are exactly the items that
/// satisfy `keep`, each as often as it occurs and in the order in which they
/// stood. `picks[k]` is the position in `items` of the `k`-th item kept.
pub open spec fn is_selection<T>(items: Seq<T>, keep: spec_fn(T) -> bool, kept: Seq<T>, picks: Seq<int>) -> bool {
    &&& picks.len() == kept.len()
    &&& rising_below(picks, items.len() as int)
    &&& forall|k: int| 0 <= k < kept.len() ==> #[trigger] kept[k] == items[picks[k]] && keep(kept[k])
    &&& forall|i: int|
        0 <= i < items.len() && keep(#[trigger] items[i]) ==> exists|k: int|
            0 <= k < picks.len() && #[trigger] picks[k] == i
}

/// Filtering drops every item that fails the test, keeps every item that
/// passes it, and keeps them in their order.
pub proof fn lemma_filter_is_selection<T>(items: Seq<T>, keep: spec_fn(T) -> bool)
    ensures
        exists|picks: Seq<int>| is_selection(items, keep, items.filter(keep), picks),
    decreases items.len(),
{
    reveal(Seq::filter);
    if items.len() == 0 {
        assert(is_selection(items, keep, items.filter(keep), Seq::<int>::empty()));
    } else {
        let front = items.drop_last();
        lemma_filter_is_selection(front, keep);
        let before = choose|picks: Seq<int>| is_selection(front, keep, front.filter(keep), picks);
        let last = items.len() - 1;
        if keep(items.last()) {
            let picks = before.push(last);
            let kept = items.filter(keep);
            assert(kept == front.filter(keep).push(items.last()));
            assert forall|k: int| 0 <= k < kept.len() implies #[trigger] kept[k] == items[picks[k]]
                && keep(kept[k]) by {
                if k < before.len() {
                    assert(front.filter(keep)[k] == front[before[k]]);
                }
            }
            assert forall|i: int| 0 <= i < items.len() && keep(#[trigger] items[i]) implies exists|
                k: int,
            | 0 <= k < picks.len() && #[trigger] picks[k] == i by {
                if i < last {
                    assert(keep(front[i]));
                    let k = choose|k: int| 0 <= k < before.len() && #[trigger] before[k] == i;
                    assert(picks[k] == i);
                } else {
                    assert(picks[before.len() as int] == i);
                }
            }
            assert(is_selection(items, keep, kept, picks));
        } else {
            assert forall|i: int| 0 <= i < items.len() && keep(#[trigger] items[i]) implies exists|
                k: int,
            | 0 <= k < before.len() && #[trigger] before[k] == i by {
                assert(keep(front[i]));
            }
            assert forall|k: int| 0 <= k < front.filter(keep).len() implies #[trigger] front.filter(
                keep,
            )[k] == items[before[k]] && keep(front.filter(keep)[k]) by {
                assert(front.filter(keep)[k] == front[before[k]]);
            }
            assert(is_selection(items, keep, items.filter(keep), before));
        }
    }
}

} // verus!
