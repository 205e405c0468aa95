//! Ranking by how long an entity has gone unheard.

use vstd::prelude::*;
use crate::aggregate::{EntityWithListens, RecordingWithListens};
use crate::entity::nominal_duration_ms;
use crate::listen::{latest_timestamp, Listen};
use crate::ranking::{all_well_formed, is_stable_ranking, rank_descending};
use crate::score::{lemma_outranks_carries, Score};
use crate::sorters::listen_rate::{at_least_one, listening_span, listening_span_of};

verus! {

/// Interval, in seconds, that stands for the average time between two listens
/// of an entity that has no cadence of its own: one year of 365 days.
pub const DEFAULT_FALLBACK_INTERVAL: u64 = 31_536_000;

/// Seconds from the latest listen to `now`; negative where the latest listen
/// lies after `now`, and zero for an entity never heard.
pub open spec fn time_since(listens: Seq<Listen>, now: i64) -> int {
    match latest_timestamp(listens) {
        Some(at) => now - at,
        None => 0,
    }
}

/// The quotient `numerator / denominator` as a score.
pub open spec fn quotient(numerator: int, denominator: u64) -> Score {
    Score {
        negative: numerator < 0,
        numerator: (if numerator < 0 {
            -numerator
        } else {
            numerator
        }) as u128,
        denominator,
    }
}

/// The time since the latest listen, as a score in seconds.
pub open spec fn overdue(listens: Seq<Listen>, now: i64) -> Score {
    quotient(time_since(listens, now), 1)
}

/// The times since the latest listen of `items`, in order.
pub open spec fn overdues<E>(items: Seq<EntityWithListens<E>>, now: i64) -> Seq<Score> {
    items.map_values(|r: EntityWithListens<E>| overdue(r.listens@, now))
}

/// Whether the listens give an average interval between two of them: there
/// are at least two, and they spread over time.
pub open spec fn has_cadence(listens: Seq<Listen>) -> bool {
    listens.len() >= 2 && listening_span(listens) > 0
}

/// The time since the latest listen divided by the average interval between
/// listens, which is the listening span over the number of intervals. Without
/// a cadence, `fallback_interval` seconds (at least one) stand for the
/// average interval.
pub open spec fn overdue_factor(listens: Seq<Listen>, now: i64, fallback_interval: u64) -> Score {
    if has_cadence(listens) {
        quotient(time_since(listens, now) * (listens.len() - 1), listening_span(listens) as u64)
    } else {
        quotient(time_since(listens, now), at_least_one(fallback_interval))
    }
}

/// Seconds from the latest listen of `item` to `now`, as sign and magnitude.
fn time_since_of<E>(item: &EntityWithListens<E>, now: i64) -> (since: (bool, u64))
    ensures
        since.0 == (time_since(item.listens@, now) < 0),
        since.1 == if time_since(item.listens@, now) < 0 {
            -time_since(item.listens@, now)
        } else {
            time_since(item.listens@, now)
        },
{
    match item.latest_listen_date() {
        Some(at) => {
            let gap: i128 = now as i128 - at as i128;
            if gap < 0 {
                (true, (-gap) as u64)
            } else {
                (false, gap as u64)
            }
        },
        None => (false, 0),
    }
}

/// The time since the latest listen of `item`, as a score.
pub fn overdue_of<E>(item: &EntityWithListens<E>, now: i64) -> (score: Score)
    ensures
        score == overdue(item.listens@, now),
        score.well_formed(),
{
    let (negative, magnitude) = time_since_of(item, now);
    Score { negative, numerator: magnitude as u128, denominator: 1 }
}

/// The overdue factor of `item` at `now`.
pub fn overdue_factor_of<E>(item: &EntityWithListens<E>, now: i64, fallback_interval: u64) -> (score:
    Score)
    ensures
        score == overdue_factor(item.listens@, now, fallback_interval),
        score.well_formed(),
{
    let (negative, magnitude) = time_since_of(item, now);
    let count: usize = item.listen_count();
    let span: u64 = listening_span_of(item);
    if count >= 2 && span > 0 {
        let intervals: u128 = (count - 1) as u128;
        let wide: u128 = magnitude as u128;
        assert(wide * intervals <= 0xffff_ffff_ffff_ffff * 0xffff_ffff_ffff_ffff) by (nonlinear_arith)
            requires
                0 <= wide <= 0xffff_ffff_ffff_ffff,
                0 <= intervals <= 0xffff_ffff_ffff_ffff,
        ;
        let ghost since = time_since(item.listens@, now);
        assert(since * (count - 1) < 0 <==> since < 0) by (nonlinear_arith)
            requires
                count - 1 >= 1,
        ;
        assert((-since) * (count - 1) == -(since * (count - 1))) by (nonlinear_arith);
        Score { negative, numerator: wide * intervals, denominator: span }
    } else {
        let denominator: u64 = if fallback_interval == 0 {
            1
        } else {
            fallback_interval
        };
        Score { negative, numerator: magnitude as u128, denominator }
    }
}

/// Ranks by time since the latest listen at `now`, longest first. Equal times
/// keep their order.
pub fn overdue_sorter<E>(recordings: Vec<EntityWithListens<E>>, now: i64) -> (sorted: Vec<
    EntityWithListens<E>,
>)
    ensures
        is_stable_ranking(recordings@, overdues(recordings@, now), sorted@),
{
    let mut scores: Vec<Score> = Vec::new();
    let mut i: usize = 0;
    while i < recordings.len()
        invariant
            i <= recordings.len(),
            scores@.len() == i,
            forall|k: int|
                0 <= k < i ==> #[trigger] scores@[k] == overdue(recordings@[k].listens@, now)
                    && scores@[k].well_formed(),
        decreases recordings.len() - i,
    {
        scores.push(overdue_of(&recordings[i], now));
        i += 1;
    }
    assert(scores@ =~= overdues(recordings@, now));
    rank_descending(recordings, scores)
}

/// The overdue factors of `items` at `now`, in order.
pub open spec fn factors<E>(items: Seq<EntityWithListens<E>>, now: i64, fallback_interval: u64) -> Seq<
    Score,
> {
    items.map_values(|r: EntityWithListens<E>| overdue_factor(r.listens@, now, fallback_interval))
}

/// Computes the overdue factor of every item at `now`.
fn factors_of<E>(items: &Vec<EntityWithListens<E>>, now: i64, fallback_interval: u64) -> (scores: Vec<
    Score,
>)
    ensures
        scores@ == factors(items@, now, fallback_interval),
        all_well_formed(scores@),
{
    let mut scores: Vec<Score> = Vec::new();
    let mut i: usize = 0;
    while i < items.len()
        invariant
            i <= items.len(),
            scores@.len() == i,
            forall|k: int|
                0 <= k < i ==> #[trigger] scores@[k] == overdue_factor(
                    items@[k].listens@,
                    now,
                    fallback_interval,
                ) && scores@[k].well_formed(),
        decreases items.len() - i,
    {
        scores.push(overdue_factor_of(&items[i], now, fallback_interval));
        i += 1;
    }
    assert(scores@ =~= factors(items@, now, fallback_interval));
    scores
}

/// Ranks by overdue factor at `now`, highest first, with `fallback_interval`
/// seconds as the average interval of entities without a cadence. Equal
/// factors keep their order.
pub fn overdue_factor_sorter_with<E>(
    recordings: Vec<EntityWithListens<E>>,
    now: i64,
    fallback_interval: u64,
) -> (sorted: Vec<EntityWithListens<E>>)
    ensures
        is_stable_ranking(recordings@, factors(recordings@, now, fallback_interval), sorted@),
{
    let scores = factors_of(&recordings, now, fallback_interval);
    rank_descending(recordings, scores)
}

/// Ranks by overdue factor at `now`, highest first, with
/// [`DEFAULT_FALLBACK_INTERVAL`] as the average interval of entities without
/// a cadence.
pub fn overdue_factor_sorter<E>(recordings: Vec<EntityWithListens<E>>, now: i64) -> (sorted: Vec<
    EntityWithListens<E>,
>)
    ensures
        is_stable_ranking(recordings@, factors(recordings@, now, DEFAULT_FALLBACK_INTERVAL), sorted@),
{
    overdue_factor_sorter_with(recordings, now, DEFAULT_FALLBACK_INTERVAL)
}

/// Position of the first score that none of the others outranks; zero for no
/// scores.
pub open spec fn leader_index(scores: Seq<Score>) -> int
    decreases scores.len(),
{
    if scores.len() <= 1 {
        0
    } else {
        let before = leader_index(scores.drop_last());
        if scores.last().outranks(&scores[before]) {
            scores.len() - 1
        } else {
            before
        }
    }
}

/// Whether the score at `i` leads: it outranks every score before it, and no
/// score after it outranks it.
pub open spec fn leads(scores: Seq<Score>, i: int) -> bool {
    &&& 0 <= i < scores.len()
    &&& forall|j: int| 0 <= j < i ==> scores[i].outranks(&#[trigger] scores[j])
    &&& forall|j: int| i < j < scores.len() ==> !(#[trigger] scores[j]).outranks(&scores[i])
}

/// The leader index leads.
pub proof fn lemma_leader_leads(scores: Seq<Score>)
    requires
        scores.len() > 0,
        all_well_formed(scores),
    ensures
        leads(scores, leader_index(scores)),
    decreases scores.len(),
{
    if scores.len() > 1 {
        let front = scores.drop_last();
        lemma_leader_leads(front);
        let before = leader_index(front);
        let last = scores.len() - 1;
        assert(front[before] == scores[before]);
        if scores[last].outranks(&scores[before]) {
            assert forall|j: int| 0 <= j < last implies scores[last].outranks(&#[trigger] scores[j]) by {
                if j != before {
                    assert(front[j] == scores[j]);
                    lemma_outranks_carries(scores[last], scores[before], scores[j]);
                }
            }
        } else {
            assert forall|j: int| 0 <= j < before implies scores[before].outranks(
                &#[trigger] scores[j],
            ) by {
                assert(front[j] == scores[j]);
            }
            assert forall|j: int| before < j < scores.len() implies !(#[trigger] scores[j]).outranks(
                &scores[before],
            ) by {
                if j < last {
                    assert(front[j] == scores[j]);
                }
            }
        }
    }
}

/// Finds the first score that none of the others outranks.
pub fn leading_index(scores: &Vec<Score>) -> (leader: usize)
    requires
        scores@.len() > 0,
        all_well_formed(scores@),
    ensures
        leader == leader_index(scores@),
        leads(scores@, leader as int),
{
    let mut leader: usize = 0;
    let mut i: usize = 1;
    assert(scores@.take(1).len() == 1);
    while i < scores.len()
        invariant
            1 <= i <= scores.len(),
            leader < i,
            all_well_formed(scores@),
            leader == leader_index(scores@.take(i as int)),
        decreases scores.len() - i,
    {
        proof {
            assert(scores@.take(i + 1).drop_last() =~= scores@.take(i as int));
            assert(scores@.take(i + 1).last() == scores@[i as int]);
            assert(scores@.take(i + 1)[leader as int] == scores@[leader as int]);
        }
        if scores[i].is_above(&scores[leader]) {
            leader = i;
        }
        i += 1;
    }
    proof {
        assert(scores@.take(i as int) =~= scores@);
        lemma_leader_leads(scores@);
    }
    leader
}

/// The clock after a recording of the given length has played: advanced by
/// its nominal duration in whole seconds, and held at the last second that
/// a timestamp can express.
pub open spec fn advance_clock(clock: i64, length: Option<i64>) -> i64 {
    let later = clock + nominal_duration_ms(length) / 1000;
    if later > i64::MAX {
        i64::MAX
    } else {
        later as i64
    }
}

/// The order in which recordings leave when, again and again, the one with
/// the highest overdue factor at the clock is taken and the clock advances by
/// its play time. Of several with the highest factor the first is taken.
pub open spec fn cumulative_ranking(
    pending: Seq<RecordingWithListens>,
    clock: i64,
    fallback_interval: u64,
) -> Seq<RecordingWithListens>
    decreases pending.len(),
{
    if pending.len() == 0 {
        Seq::empty()
    } else {
        let i = leader_index(factors(pending, clock, fallback_interval));
        if 0 <= i < pending.len() {
            seq![pending[i]] + cumulative_ranking(
                pending.remove(i),
                advance_clock(clock, pending[i].entity.length),
                fallback_interval,
            )
        } else {
            Seq::empty()
        }
    }
}

/// A playlist in the making that ranks by overdue factor at listening time:
/// each recording is chosen at the moment at which it would start to play.
///
/// The ranking comes out one recording at a time and cannot be rewound; to
/// see it again, start anew from the same recordings and clock.
#[derive(Debug)]
pub struct OverdueFactorCumulative {
    pending: Vec<RecordingWithListens>,
    clock: i64,
    fallback_interval: u64,
}

impl OverdueFactorCumulative {
    /// The recordings not yet given out, in their input order.
    pub closed spec fn pending(&self) -> Seq<RecordingWithListens> {
        self.pending@
    }

    /// The moment at which the next recording would start to play.
    pub closed spec fn clock(&self) -> i64 {
        self.clock
    }

    /// The average interval assumed for recordings without a cadence.
    pub closed spec fn fallback_interval(&self) -> u64 {
        self.fallback_interval
    }

    /// Starts from `recordings` at the moment `now`.
    pub fn new(recordings: Vec<RecordingWithListens>, now: i64, fallback_interval: u64) -> (sorter:
        Self)
        ensures
            sorter.pending() == recordings@,
            sorter.clock() == now,
            sorter.fallback_interval() == fallback_interval,
    {
        OverdueFactorCumulative { pending: recordings, clock: now, fallback_interval }
    }

    /// Number of recordings not yet given out.
    pub fn remaining(&self) -> (count: usize)
        ensures
            count == self.pending().len(),
    {
        self.pending.len()
    }

    /// Gives out the recording with the highest overdue factor at the clock,
    /// the first of them where several have it, and advances the clock by its
    /// play time. Gives `None` once every recording has been given out.
    pub fn next(&mut self) -> (chosen: Option<RecordingWithListens>)
        ensures
            final(self).fallback_interval() == old(self).fallback_interval(),
            old(self).pending().len() == 0 ==> chosen is None && final(self).pending() == old(
                self,
            ).pending() && final(self).clock() == old(self).clock(),
            old(self).pending().len() > 0 ==> {
                let i = leader_index(
                    factors(old(self).pending(), old(self).clock(), old(self).fallback_interval()),
                );
                &&& 0 <= i < old(self).pending().len()
                &&& chosen == Some(old(self).pending()[i])
                &&& final(self).pending() == old(self).pending().remove(i)
                &&& final(self).clock() == advance_clock(
                    old(self).clock(),
                    old(self).pending()[i].entity.length,
                )
            },
    {
        if self.pending.len() == 0 {
            return None;
        }
        let scores = factors_of(&self.pending, self.clock, self.fallback_interval);
        let leader = leading_index(&scores);
        let chosen = self.pending.remove(leader);
        let seconds: u64 = chosen.entity.nominal_duration_millis() / 1000;
        let later: i128 = self.clock as i128 + seconds as i128;
        self.clock = if later > i64::MAX as i128 {
            i64::MAX
        } else {
            later as i64
        };
        Some(chosen)
    }
}

/// Ranks by overdue factor at listening time, starting at `now`, with
/// `fallback_interval` seconds as the average interval of recordings without
/// a cadence.
pub fn overdue_factor_sorter_cumulative_with(
    recordings: Vec<RecordingWithListens>,
    now: i64,
    fallback_interval: u64,
) -> (sorted: Vec<RecordingWithListens>)
    ensures
        sorted@ == cumulative_ranking(recordings@, now, fallback_interval),
{
    let ghost input = recordings@;
    let mut sorter = OverdueFactorCumulative::new(recordings, now, fallback_interval);
    let mut sorted: Vec<RecordingWithListens> = Vec::new();
    assert(sorted@ + cumulative_ranking(input, now, fallback_interval) =~= cumulative_ranking(
        input,
        now,
        fallback_interval,
    ));
    while sorter.remaining() > 0
        invariant
            sorter.fallback_interval() == fallback_interval,
            sorted@ + cumulative_ranking(sorter.pending(), sorter.clock(), fallback_interval)
                == cumulative_ranking(input, now, fallback_interval),
        decreases sorter.pending().len(),
    {
        let ghost before = sorted@;
        let ghost pending = sorter.pending();
        let ghost clock = sorter.clock();
        let chosen = sorter.next().unwrap();
        sorted.push(chosen);
        assert(sorted@ + cumulative_ranking(sorter.pending(), sorter.clock(), fallback_interval)
            =~= before + cumulative_ranking(pending, clock, fallback_interval));
    }
    assert(cumulative_ranking(sorter.pending(), sorter.clock(), fallback_interval)
        =~= Seq::<RecordingWithListens>::empty());
    assert(sorted@ + Seq::<RecordingWithListens>::empty() =~= sorted@);
    sorted
}

/// Ranks by overdue factor at listening time, starting at `now`, with
/// [`DEFAULT_FALLBACK_INTERVAL`] as the average interval of recordings
/// without a cadence.
pub fn overdue_factor_sorter_cumulative(recordings: Vec<RecordingWithListens>, now: i64) -> (sorted: Vec<
    RecordingWithListens,
>)
    ensures
        sorted@ == cumulative_ranking(recordings@, now, DEFAULT_FALLBACK_INTERVAL),
{
    overdue_factor_sorter_cumulative_with(recordings, now, DEFAULT_FALLBACK_INTERVAL)
}

} // verus!
