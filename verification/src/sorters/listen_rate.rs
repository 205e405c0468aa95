//! Ranking by how often an entity is played.

use vstd::prelude::*;
use crate::aggregate::EntityWithListens;
use crate::listen::{
    latest_timestamp, lemma_latest_is_maximum, lemma_oldest_is_minimum, oldest_timestamp, Listen,
};
use crate::ranking::{
    is_stable_ranking, lemma_ranking_respects_scores, rank_descending, ranked_by,
};
use crate::score::Score;

verus! {

/// Span, in seconds, that stands for the listening span of an entity whose
/// listens do not spread over time: one year of 365 days.
pub const DEFAULT_FALLBACK_SPAN: u64 = 31_536_000;

/// `seconds`, or one second where it is zero.
pub open spec fn at_least_one(seconds: u64) -> u64 {
    if seconds == 0 {
        1
    } else {
        seconds
    }
}

/// Seconds between the oldest and the latest listen; zero without listens.
pub open spec fn listening_span(listens: Seq<Listen>) -> int {
    match (oldest_timestamp(listens), latest_timestamp(listens)) {
        (Some(oldest), Some(latest)) => latest - oldest,
        _ => 0,
    }
}

/// The span that the listen rate divides by: the listening span, or
/// `fallback` (at least one second) where the listens do not spread over
/// time, as with a single listen.
pub open spec fn effective_span(listens: Seq<Listen>, fallback: u64) -> int {
    if listening_span(listens) > 0 {
        listening_span(listens)
    } else {
        at_least_one(fallback) as int
    }
}

/// Listens per second of effective span, as an exact quotient.
pub open spec fn listen_rate(listens: Seq<Listen>, fallback: u64) -> Score {
    Score {
        negative: false,
        numerator: listens.len() as u128,
        denominator: effective_span(listens, fallback) as u64,
    }
}

/// The listen rates of `items`, in order.
pub open spec fn listen_rates<E>(items: Seq<EntityWithListens<E>>, fallback: u64) -> Seq<Score> {
    items.map_values(|r: EntityWithListens<E>| listen_rate(r.listens@, fallback))
}

/// The listening span lies between zero and the width of the timestamp range.
pub proof fn lemma_listening_span_bounds(listens: Seq<Listen>)
    ensures
        0 <= listening_span(listens) <= u64::MAX,
{
    lemma_latest_is_maximum(listens);
    lemma_oldest_is_minimum(listens);
    if listens.len() > 0 {
        let latest = latest_timestamp(listens)->Some_0;
        let i = choose|i: int| 0 <= i < listens.len() && #[trigger] listens[i].listened_at == latest;
        assert(listens[i].listened_at >= oldest_timestamp(listens)->Some_0);
    }
}

/// Seconds between the oldest and the latest listen of `item`.
pub fn listening_span_of<E>(item: &EntityWithListens<E>) -> (span: u64)
    ensures
        span == listening_span(item.listens@),
{
    proof {
        lemma_listening_span_bounds(item.listens@);
        lemma_latest_is_maximum(item.listens@);
        lemma_oldest_is_minimum(item.listens@);
    }
    match (item.oldest_listen_date(), item.latest_listen_date()) {
        (Some(oldest), Some(latest)) => (latest as i128 - oldest as i128) as u64,
        _ => 0,
    }
}

/// The listen rate of `item`.
pub fn listen_rate_of<E>(item: &EntityWithListens<E>, fallback: u64) -> (rate: Score)
    ensures
        rate == listen_rate(item.listens@, fallback),
        rate.well_formed(),
{
    let span = listening_span_of(item);
    let denominator: u64 = if span > 0 {
        span
    } else if fallback == 0 {
        1
    } else {
        fallback
    };
    Score::positive(item.listen_count() as u128, denominator)
}

/// Ranks by listen rate, highest first, with `fallback` seconds as the span
/// of entities whose listens do not spread over time. Equal rates keep their
/// order.
pub fn listen_rate_sorter_with<E>(recordings: Vec<EntityWithListens<E>>, fallback: u64) -> (sorted: Vec<
    EntityWithListens<E>,
>)
    ensures
        is_stable_ranking(recordings@, listen_rates(recordings@, fallback), sorted@),
{
    let mut scores: Vec<Score> = Vec::new();
    let mut i: usize = 0;
    while i < recordings.len()
        invariant
            i <= recordings.len(),
            scores@.len() == i,
            forall|k: int|
                0 <= k < i ==> #[trigger] scores@[k] == listen_rate(recordings@[k].listens@, fallback)
                    && scores@[k].well_formed(),
        decreases recordings.len() - i,
    {
        scores.push(listen_rate_of(&recordings[i], fallback));
        i += 1;
    }
    assert(scores@ =~= listen_rates(recordings@, fallback));
    rank_descending(recordings, scores)
}

/// Ranks by listen rate, highest first, with [`DEFAULT_FALLBACK_SPAN`] as the
/// span of entities whose listens do not spread over time.
pub fn listen_rate_sorter<E>(recordings: Vec<EntityWithListens<E>>) -> (sorted: Vec<EntityWithListens<E>>)
    ensures
        is_stable_ranking(recordings@, listen_rates(recordings@, DEFAULT_FALLBACK_SPAN), sorted@),
{
    listen_rate_sorter_with(recordings, DEFAULT_FALLBACK_SPAN)
}

/// Of two entities with the same effective span, the one with more listens
/// has the higher rate; with as many listens, neither rate is higher.
pub proof fn lemma_more_listens_higher_rate(a: Seq<Listen>, b: Seq<Listen>, fallback: u64)
    requires
        effective_span(a, fallback) == effective_span(b, fallback),
        a.len() <= u128::MAX,
        b.len() <= u128::MAX,
    ensures
        a.len() > b.len() ==> listen_rate(a, fallback).outranks(&listen_rate(b, fallback)),
        a.len() == b.len() ==> !listen_rate(a, fallback).outranks(&listen_rate(b, fallback))
            && !listen_rate(b, fallback).outranks(&listen_rate(a, fallback)),
{
    lemma_listening_span_bounds(a);
    lemma_listening_span_bounds(b);
    let span = effective_span(a, fallback);
    assert(0 < span <= u64::MAX);
    let (x, y) = (a.len() as int, b.len() as int);
    assert(x > y ==> x * span > y * span) by (nonlinear_arith)
        requires
            span > 0,
    ;
}

/// In the output of the listen-rate sorter, of two entities with the same
/// effective span the one with more listens stands first, and of two with as
/// many listens the one that stood first in the input stays first.
pub proof fn lemma_listen_rate_order<E>(
    recordings: Seq<EntityWithListens<E>>,
    sorted: Seq<EntityWithListens<E>>,
    order: Seq<int>,
    fallback: u64,
    j: int,
    k: int,
)
    requires
        ranked_by(recordings, listen_rates(recordings, fallback), sorted, order),
        0 <= j < sorted.len(),
        0 <= k < sorted.len(),
        j != k,
        effective_span(sorted[j].listens@, fallback) == effective_span(sorted[k].listens@, fallback),
    ensures
        sorted[j].listens@.len() > sorted[k].listens@.len() ==> j < k,
        sorted[j].listens@.len() == sorted[k].listens@.len() && order[j] < order[k] ==> j < k,
{
    let scores = listen_rates(recordings, fallback);
    assert(sorted[j] == recordings[order[j]]);
    assert(sorted[k] == recordings[order[k]]);
    assert(scores[order[j]] == listen_rate(sorted[j].listens@, fallback));
    assert(scores[order[k]] == listen_rate(sorted[k].listens@, fallback));
    sorted[j].listens.lemma_count_bounded();
    sorted[k].listens.lemma_count_bounded();
    lemma_more_listens_higher_rate(sorted[j].listens@, sorted[k].listens@, fallback);
    lemma_ranking_respects_scores(recordings, scores, sorted, order, j, k);
}

} // verus!
