//! The collector: cuts a ranked sequence of recordings to a budget.

use vstd::prelude::*;
use crate::entity::Recording;

verus! {

/// Play time of `items` in milliseconds, by their nominal durations.
pub open spec fn total_duration(items: Seq<Recording>) -> nat
    decreases items.len(),
{
    if items.len() == 0 {
        0
    } else {
        total_duration(items.drop_last()) + items.last().nominal_duration()
    }
}

/// A prefix never plays longer than the whole.
pub proof fn lemma_total_duration_prefix(items: Seq<Recording>, k: int)
    requires
        0 <= k <= items.len(),
    ensures
        total_duration(items.take(k)) <= total_duration(items),
    decreases items.len(),
{
    if k < items.len() {
        lemma_total_duration_prefix(items.drop_last(), k);
        assert(items.drop_last().take(k) =~= items.take(k));
    } else {
        assert(items.take(k) =~= items);
    }
}

/// No recording counts for more than `i64::MAX` milliseconds.
pub proof fn lemma_total_duration_bound(items: Seq<Recording>)
    ensures
        total_duration(items) <= items.len() * i64::MAX,
    decreases items.len(),
{
    if items.len() > 0 {
        lemma_total_duration_bound(items.drop_last());
        assert((items.len() - 1) * i64::MAX + i64::MAX == items.len() * i64::MAX) by (nonlinear_arith);
    }
}

/// A budget for a playlist: at most `count` recordings, at most `duration`
/// seconds of play time, either, both or neither.
#[derive(Clone, Copy, Debug)]
pub struct RadioCollector {
    /// Greatest play time, in seconds.
    pub duration: Option<u64>,
    /// Greatest number of recordings.
    pub count: Option<u64>,
}

impl RadioCollector {
    /// Whether `items` as a whole fit the budget.
    pub open spec fn within_budget(&self, items: Seq<Recording>) -> bool {
        &&& self.count matches Some(most) ==> items.len() <= most
        &&& self.duration matches Some(seconds) ==> total_duration(items) <= seconds * 1000
    }

    /// What the collector makes of `items`: their longest prefix that fits
    /// the budget.
    pub open spec fn collects(&self, items: Seq<Recording>, collected: Seq<Recording>) -> bool {
        &&& collected.len() <= items.len()
        &&& collected == items.take(collected.len() as int)
        &&& self.within_budget(collected)
        &&& collected.len() < items.len() ==> !self.within_budget(items.take(collected.len() as int + 1))
    }

    /// A budget with the given limits.
    pub fn new(count: Option<u64>, duration: Option<u64>) -> (collector: Self)
        ensures
            collector.count == count,
            collector.duration == duration,
    {
        RadioCollector { duration, count }
    }

    /// Whether neither limit is set, so that everything is collected. An
    /// endless producer needs a budget that has a limit.
    pub fn is_unbounded(&self) -> (unbounded: bool)
        ensures
            unbounded <==> self.count is None && self.duration is None,
    {
        self.count.is_none() && self.duration.is_none()
    }

    /// Tests whether `collected` already holds as many recordings as the
    /// count allows, so that nothing more can be taken.
    pub fn is_full(&self, collected: &Vec<Recording>) -> (full: bool)
        ensures
            full <==> (self.count matches Some(most) && collected@.len() >= most),
            full ==> forall|next: Recording| !self.within_budget(#[trigger] collected@.push(next)),
    {
        match self.count {
            Some(most) => collected.len() as u128 >= most as u128,
            None => false,
        }
    }

    /// Tests whether `next` can be taken after `collected` without leaving
    /// the budget.
    pub fn accepts(&self, collected: &Vec<Recording>, next: &Recording) -> (fits: bool)
        ensures
            fits == self.within_budget(collected@.push(*next)),
    {
        let ghost longer = collected@.push(*next);
        assert(longer.drop_last() =~= collected@);
        let count_fits = match self.count {
            Some(most) => (collected.len() as u128) < most as u128,
            None => true,
        };
        if !count_fits {
            return false;
        }
        match self.duration {
            Some(seconds) => {
                let mut total: u128 = next.nominal_duration_millis() as u128;
                let limit: u128 = seconds as u128 * 1000;
                let mut i: usize = 0;
                while i < collected.len() && total <= limit
                    invariant
                        i <= collected.len(),
                        limit == seconds * 1000,
                        total == total_duration(collected@.take(i as int)) + next.nominal_duration(),
                        total <= limit + u64::MAX,
                    decreases collected.len() - i,
                {
                    proof {
                        assert(collected@.take(i + 1).drop_last() =~= collected@.take(i as int));
                    }
                    total = total + collected[i].nominal_duration_millis() as u128;
                    i += 1;
                }
                proof {
                    lemma_total_duration_prefix(collected@, i as int);
                    if i == collected.len() {
                        assert(collected@.take(i as int) =~= collected@);
                    }
                }
                total <= limit
            },
            None => true,
        }
    }

    /// Collects the longest prefix of `items` that fits the budget. The first
    /// recording that does not fit ends the collection, whatever follows it.
    pub fn collect(&self, items: Vec<Recording>) -> (collected: Vec<Recording>)
        ensures
            self.collects(items@, collected@),
    {
        let ghost all = items@;
        let mut items = items;
        let mut taken: usize = 0;
        let mut total: u128 = 0;
        let mut open = true;
        assert(all.take(0) =~= Seq::<Recording>::empty());
        while open
            invariant
                items@ == all,
                taken <= all.len(),
                total == total_duration(all.take(taken as int)),
                self.within_budget(all.take(taken as int)),
                !open ==> taken == all.len() || !self.within_budget(all.take(taken + 1)),
            decreases all.len() - taken + (if open { 1int } else { 0int }),
        {
            if taken >= items.len() {
                open = false;
            } else {
                let ghost longer = all.take(taken + 1);
                proof {
                    assert(longer.drop_last() =~= all.take(taken as int));
                    assert(longer.last() == all[taken as int]);
                    lemma_total_duration_bound(all.take(taken as int));
                    assert(taken * i64::MAX <= usize::MAX * i64::MAX) by (nonlinear_arith)
                        requires
                            taken <= usize::MAX,
                    ;
                }
                let count_fits = match self.count {
                    Some(most) => (taken as u128) < most as u128,
                    None => true,
                };
                let longer_total: u128 = total + items[taken].nominal_duration_millis() as u128;
                let duration_fits = match self.duration {
                    Some(seconds) => longer_total <= seconds as u128 * 1000,
                    None => true,
                };
                if count_fits && duration_fits {
                    taken += 1;
                    total = longer_total;
                } else {
                    open = false;
                }
            }
        }
        items.truncate(taken);
        items
    }
}

/// Collecting gives no more recordings than the count allows, and gives
/// everything where nothing is over budget.
pub proof fn lemma_collects_bounds(
    collector: RadioCollector,
    items: Seq<Recording>,
    collected: Seq<Recording>,
)
    requires
        collector.collects(items, collected),
    ensures
        collector.count matches Some(most) ==> collected.len() <= most,
        collector.within_budget(items) ==> collected == items,
        collector.count is None && collector.duration is None ==> collected == items,
{
    if collector.within_budget(items) && collected.len() < items.len() {
        lemma_total_duration_prefix(items, collected.len() as int + 1);
    }
    if collected.len() == items.len() {
        assert(items.take(items.len() as int) =~= items);
    }
}

/// What is collected is settled by the budget and the input: two collections
/// of the same input under the same budget are equal.
pub proof fn lemma_collects_unique(
    collector: RadioCollector,
    items: Seq<Recording>,
    first: Seq<Recording>,
    second: Seq<Recording>,
)
    requires
        collector.collects(items, first),
        collector.collects(items, second),
    ensures
        first == second,
{
    let (m, n) = (first.len() as int, second.len() as int);
    if m < n {
        lemma_budget_prefix_closed(collector, second, m + 1);
        assert(second.take(m + 1) =~= items.take(m + 1));
    } else if n < m {
        lemma_budget_prefix_closed(collector, first, n + 1);
        assert(first.take(n + 1) =~= items.take(n + 1));
    }
}

/// What fits the budget still fits when cut short.
pub proof fn lemma_budget_prefix_closed(collector: RadioCollector, items: Seq<Recording>, k: int)
    requires
        collector.within_budget(items),
        0 <= k <= items.len(),
    ensures
        collector.within_budget(items.take(k)),
{
    lemma_total_duration_prefix(items, k);
}

} // verus!
