//! Dropping recordings that the listener has put on hold.

use vstd::prelude::*;
use crate::aggregate::EntityWithListens;
use crate::entity::HasMbid;
use crate::sequence::{lemma_masked_is_filter, retain_masked};

verus! {

/// A recording put on hold until a moment in time.
#[derive(Debug)]
pub struct Timeout {
    /// Identifier of the recording.
    pub mbid: String,
    /// Unix timestamp, in seconds, from which the recording may play again.
    pub until: i64,
}

/// Whether `entries` hold the identifier `mbid` back at `now`: some entry
/// names it and has not yet run out.
pub open spec fn timed_out(entries: Seq<Timeout>, mbid: Seq<char>, now: i64) -> bool {
    exists|i: int| 0 <= i < entries.len() && (#[trigger] entries[i]).mbid@ == mbid && now < entries[i].until
}

/// The recordings that are on hold, as the listener's configuration records
/// them.
#[derive(Debug)]
pub struct TimeoutRegistry {
    entries: Vec<Timeout>,
}

impl View for TimeoutRegistry {
    type V = Seq<Timeout>;

    closed spec fn view(&self) -> Seq<Timeout> {
        self.entries@
    }
}

impl TimeoutRegistry {
    /// A registry that holds nothing back.
    pub fn new() -> (registry: Self)
        ensures
            registry@.len() == 0,
    {
        TimeoutRegistry { entries: Vec::new() }
    }

    /// A registry with the given entries.
    pub fn from_entries(entries: Vec<Timeout>) -> (registry: Self)
        ensures
            registry@ == entries@,
    {
        TimeoutRegistry { entries }
    }

    /// The entries, in the order in which they were made.
    pub fn entries(&self) -> (entries: &Vec<Timeout>)
        ensures
            entries@ == self@,
    {
        &self.entries
    }

    /// Puts the recording `mbid` on hold until `until`. Earlier entries for it
    /// stay; the recording is held back while any of them runs.
    pub fn set_timeout(&mut self, mbid: String, until: i64)
        ensures
            final(self)@ == old(self)@.push(Timeout { mbid, until }),
            forall|other: Seq<char>, now: i64|
                #[trigger] timed_out(final(self)@, other, now) <==> (timed_out(old(self)@, other, now)
                    || (other == mbid@ && now < until)),
    {
        let ghost before = self.entries@;
        self.entries.push(Timeout { mbid, until });
        let ghost after = self.entries@;
        assert forall|other: Seq<char>, now: i64| #[trigger]
            timed_out(after, other, now) <==> (timed_out(before, other, now) || (other == mbid@ && now
                < until)) by {
            if timed_out(before, other, now) {
                let i = choose|i: int|
                    0 <= i < before.len() && (#[trigger] before[i]).mbid@ == other && now
                        < before[i].until;
                assert(after[i] == before[i]);
            }
            if other == mbid@ && now < until {
                assert(after[after.len() - 1].mbid@ == other);
            }
            if timed_out(after, other, now) {
                let i = choose|i: int|
                    0 <= i < after.len() && (#[trigger] after[i]).mbid@ == other && now < after[i].until;
                if i < before.len() {
                    assert(before[i] == after[i]);
                }
            }
        }
    }

    /// Tests whether the recording `mbid` is held back at `now`.
    pub fn is_timed_out(&self, mbid: &String, now: i64) -> (held: bool)
        ensures
            held == timed_out(self@, mbid@, now),
    {
        let mut i: usize = 0;
        while i < self.entries.len()
            invariant
                i <= self.entries.len(),
                forall|k: int|
                    0 <= k < i ==> !((#[trigger] self.entries@[k]).mbid@ == mbid@ && now
                        < self.entries@[k].until),
            decreases self.entries.len() - i,
        {
            if self.entries[i].mbid == *mbid && now < self.entries[i].until {
                return true;
            }
            i += 1;
        }
        false
    }
}

/// The test that [`timeout_filter`] applies to each aggregate.
pub open spec fn keeps_not_timed_out<E: HasMbid>(entries: Seq<Timeout>, now: i64) -> spec_fn(
    EntityWithListens<E>,
) -> bool {
    |item: EntityWithListens<E>| !timed_out(entries, item.entity.mbid(), now)
}

/// Drops the aggregates whose entity the registry holds back at `now`, and
/// keeps the others in their order.
pub fn timeout_filter<E: HasMbid>(
    items: Vec<EntityWithListens<E>>,
    registry: &TimeoutRegistry,
    now: i64,
) -> (kept: Vec<EntityWithListens<E>>)
    ensures
        kept@ == items@.filter(keeps_not_timed_out(registry@, now)),
{
    let mut mask: Vec<bool> = Vec::new();
    let mut i: usize = 0;
    while i < items.len()
        invariant
            i <= items.len(),
            mask@.len() == i,
            forall|k: int|
                0 <= k < i ==> #[trigger] mask@[k] == !timed_out(
                    registry@,
                    items@[k].entity.mbid(),
                    now,
                ),
        decreases items.len() - i,
    {
        mask.push(!registry.is_timed_out(items[i].entity.get_mbid(), now));
        i += 1;
    }
    proof {
        lemma_masked_is_filter(items@, mask@, keeps_not_timed_out(registry@, now));
    }
    retain_masked(items, &mask)
}

} // verus!
