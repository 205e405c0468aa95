//! Dropping entities that were heard too seldom.

use vstd::prelude::*;
use crate::aggregate::EntityWithListens;
use crate::sequence::{is_selection, lemma_filter_is_selection, lemma_masked_is_filter, retain_masked};

verus! {

/// Whether an aggregate with `count` listens reaches `minimum`.
pub open spec fn reaches_minimum(count: nat, minimum: u64) -> bool {
    count >= minimum
}

/// The test that [`min_listen_filter`] applies to each aggregate.
pub open spec fn keeps_min_listens<E>(minimum: u64) -> spec_fn(EntityWithListens<E>) -> bool {
    |item: EntityWithListens<E>| reaches_minimum(item.listens@.len(), minimum)
}

/// Tests whether `item` has at least `minimum` listens.
pub fn has_min_listens<E>(item: &EntityWithListens<E>, minimum: u64) -> (enough: bool)
    ensures
        enough == reaches_minimum(item.listens@.len(), minimum),
{
    let count: usize = item.listen_count();
    count as u128 >= minimum as u128
}

/// Keeps exactly the aggregates with at least `minimum` listens, in their
/// order.
pub fn min_listen_filter<E>(items: Vec<EntityWithListens<E>>, minimum: u64) -> (kept: Vec<
    EntityWithListens<E>,
>)
    ensures
        kept@ == items@.filter(keeps_min_listens(minimum)),
{
    let mut mask: Vec<bool> = Vec::new();
    let mut i: usize = 0;
    while i < items.len()
        invariant
            i <= items.len(),
            mask@.len() == i,
            forall|k: int|
                0 <= k < i ==> #[trigger] mask@[k] == reaches_minimum(
                    items@[k].listens@.len(),
                    minimum,
                ),
        decreases items.len() - i,
    {
        mask.push(has_min_listens(&items[i], minimum));
        i += 1;
    }
    proof {
        lemma_masked_is_filter(items@, mask@, keeps_min_listens(minimum));
    }
    retain_masked(items, &mask)
}

/// With a minimum of zero the filter changes nothing.
pub proof fn lemma_min_listen_zero_keeps_all<E>(items: Seq<EntityWithListens<E>>)
    ensures
        items.filter(keeps_min_listens(0)) == items,
    decreases items.len(),
{
    reveal(Seq::filter);
    let keep = keeps_min_listens::<E>(0);
    if items.len() > 0 {
        lemma_min_listen_zero_keeps_all(items.drop_last());
        assert(keep(items.last()));
        assert(items.drop_last().push(items.last()) =~= items);
    }
}

/// What the minimum-listen filter gives: exactly the aggregates with at
/// least `minimum` listens, in the order in which they stood.
pub proof fn lemma_min_listen_filter_selects<E>(items: Seq<EntityWithListens<E>>, minimum: u64)
    ensures
        exists|picks: Seq<int>|
            is_selection(
                items,
                keeps_min_listens(minimum),
                items.filter(keeps_min_listens(minimum)),
                picks,
            ),
{
    lemma_filter_is_selection(items, keeps_min_listens(minimum));
}

} // verus!
