//! Combining two radios.

use vstd::prelude::*;
use crate::aggregate::EntityWithListens;
use crate::entity::HasMbid;
use crate::sequence::{lemma_masked_is_filter, retain_masked};

verus! {

/// Whether some aggregate of `others` is about the entity with the identifier
/// `mbid`.
pub open spec fn among<E: HasMbid>(others: Seq<EntityWithListens<E>>, mbid: Seq<char>) -> bool {
    exists|j: int| 0 <= j < others.len() && (#[trigger] others[j]).entity.mbid() == mbid
}

/// The test that [`and_filter`] applies to each aggregate.
pub open spec fn keeps_among<E: HasMbid>(others: Seq<EntityWithListens<E>>) -> spec_fn(
    EntityWithListens<E>,
) -> bool {
    |track: EntityWithListens<E>| among(others, track.entity.mbid())
}

/// Tests whether the entity of `item` is also the entity of some aggregate of
/// `others`.
pub fn is_among<E: HasMbid>(item: &EntityWithListens<E>, others: &Vec<EntityWithListens<E>>) -> (found:
    bool)
    ensures
        found == among(others@, item.entity.mbid()),
{
    let mut j: usize = 0;
    while j < others.len()
        invariant
            j <= others.len(),
            forall|k: int| 0 <= k < j ==> (#[trigger] others@[k]).entity.mbid() != item.entity.mbid(),
        decreases others.len() - j,
    {
        if *others[j].entity.get_mbid() == *item.entity.get_mbid() {
            return true;
        }
        j += 1;
    }
    false
}

/// Keeps the aggregates of `radio` whose entity also occurs in `other`, in
/// their order.
pub fn and_filter<E: HasMbid>(radio: Vec<EntityWithListens<E>>, other: Vec<EntityWithListens<E>>) -> (kept:
    Vec<EntityWithListens<E>>)
    ensures
        kept@ == radio@.filter(keeps_among(other@)),
{
    let mut mask: Vec<bool> = Vec::new();
    let mut i: usize = 0;
    while i < radio.len()
        invariant
            i <= radio.len(),
            mask@.len() == i,
            forall|k: int|
                0 <= k < i ==> #[trigger] mask@[k] == among(other@, radio@[k].entity.mbid()),
        decreases radio.len() - i,
    {
        mask.push(is_among(&radio[i], &other));
        i += 1;
    }
    proof {
        lemma_masked_is_filter(radio@, mask@, keeps_among(other@));
    }
    retain_masked(radio, &mask)
}

} // verus!
