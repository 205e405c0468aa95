//! Dropping entities that were heard too recently.

use vstd::prelude::*;
use crate::aggregate::EntityWithListens;
use crate::listen::latest_timestamp;
use crate::sequence::{is_selection, lemma_filter_is_selection, lemma_masked_is_filter, retain_masked};

verus! {

/// Whether an entity last heard at `latest` is out of its cooldown at `now`:
/// more than `cooldown` seconds have passed since. An entity never heard is
/// out of it.
pub open spec fn out_of_cooldown(latest: Option<i64>, cooldown: u64, now: i64) -> bool {
    match latest {
        Some(at) => now - at > cooldown,
        None => true,
    }
}

/// The test that [`cooldown_filter`] applies to each aggregate.
pub open spec fn keeps_out_of_cooldown<E>(cooldown: u64, now: i64) -> spec_fn(
    EntityWithListens<E>,
) -> bool {
    |item: EntityWithListens<E>| out_of_cooldown(latest_timestamp(item.listens@), cooldown, now)
}

/// Tests whether the latest listen of `item` lies more than `cooldown` seconds
/// before `now`.
pub fn is_out_of_cooldown<E>(item: &EntityWithListens<E>, cooldown: u64, now: i64) -> (out: bool)
    ensures
        out == out_of_cooldown(latest_timestamp(item.listens@), cooldown, now),
{
    match item.latest_listen_date() {
        Some(at) => now as i128 - at as i128 > cooldown as i128,
        None => true,
    }
}

/// Drops the aggregates whose latest listen lies within `cooldown` seconds of
/// `now`, and keeps the others in their order.
pub fn cooldown_filter<E>(items: Vec<EntityWithListens<E>>, cooldown: u64, now: i64) -> (kept: Vec<
    EntityWithListens<E>,
>)
    ensures
        kept@ == items@.filter(keeps_out_of_cooldown(cooldown, now)),
{
    let mut mask: Vec<bool> = Vec::new();
    let mut i: usize = 0;
    while i < items.len()
        invariant
            i <= items.len(),
            mask@.len() == i,
            forall|k: int|
                0 <= k < i ==> #[trigger] mask@[k] == out_of_cooldown(
                    latest_timestamp(items@[k].listens@),
                    cooldown,
                    now,
                ),
        decreases items.len() - i,
    {
        mask.push(is_out_of_cooldown(&items[i], cooldown, now));
        i += 1;
    }
    proof {
        lemma_masked_is_filter(items@, mask@, keeps_out_of_cooldown(cooldown, now));
    }
    retain_masked(items, &mask)
}

/// What the cooldown filter gives: no aggregate whose latest listen lies
/// within the cooldown, every aggregate whose latest listen lies outside it,
/// and these in the order in which they stood.
pub proof fn lemma_cooldown_filter_selects<E>(
    items: Seq<EntityWithListens<E>>,
    cooldown: u64,
    now: i64,
)
    ensures
        exists|picks: Seq<int>|
            is_selection(
                items,
                keeps_out_of_cooldown(cooldown, now),
                items.filter(keeps_out_of_cooldown(cooldown, now)),
                picks,
            ),
{
    lemma_filter_is_selection(items, keeps_out_of_cooldown(cooldown, now));
}

} // verus!
