//! Statistics: which entities were heard most.

use vstd::prelude::*;
use vstd::string::StringExecFns;
use crate::aggregate::{EntityWithListens, WorkWithListens};
use crate::ranking::{is_stable_ranking, rank_descending};
use crate::score::Score;
use crate::text::{decimal, decimal_string};

verus! {

/// The number of listens as a score.
pub open spec fn listen_count_score(count: nat) -> Score {
    Score { negative: false, numerator: count as u128, denominator: 1 }
}

/// The numbers of listens of `groups` as scores, in order.
pub open spec fn listen_counts<E>(groups: Seq<EntityWithListens<E>>) -> Seq<Score> {
    groups.map_values(|group: EntityWithListens<E>| listen_count_score(group.listens@.len()))
}

/// Ranks entities by their number of listens, most heard first; entities
/// heard as often keep their order.
pub fn by_listen_count<E>(groups: Vec<EntityWithListens<E>>) -> (sorted: Vec<EntityWithListens<E>>)
    ensures
        is_stable_ranking(groups@, listen_counts(groups@), sorted@),
{
    let mut scores: Vec<Score> = Vec::new();
    let mut i: usize = 0;
    while i < groups.len()
        invariant
            i <= groups.len(),
            scores@.len() == i,
            forall|k: int|
                0 <= k < i ==> #[trigger] scores@[k] == listen_count_score(groups@[k].listens@.len())
                    && scores@[k].well_formed(),
        decreases groups.len() - i,
    {
        scores.push(Score::positive(groups[i].listen_count() as u128, 1));
        i += 1;
    }
    assert(scores@ =~= listen_counts(groups@));
    rank_descending(groups, scores)
}

/// The line that reports an entity heard `count` times: the count in square
/// brackets, a space, and the entity's label.
pub open spec fn stats_line_text(count: nat, label: Seq<char>) -> Seq<char> {
    "["@ + decimal(count) + "] "@ + label
}

/// Writes the line that reports an entity heard `count` times.
pub fn stats_line(count: usize, label: &str) -> (line: String)
    ensures
        line@ == stats_line_text(count as nat, label@),
{
    let mut line = String::from_str("[");
    line.append(decimal_string(count as u64).as_str());
    line.append("] ");
    line.append(label);
    line
}

/// The works of a listener's history, most heard first, each with its line
/// of the report. `groups` hold the listens by work.
pub fn stats_works(groups: Vec<WorkWithListens>) -> (report: (Vec<WorkWithListens>, Vec<String>))
    ensures
        is_stable_ranking(groups@, listen_counts(groups@), report.0@),
        report.1@.len() == report.0@.len(),
        forall|k: int|
            0 <= k < report.0@.len() ==> (#[trigger] report.1@[k])@ == stats_line_text(
                report.0@[k].listens@.len(),
                report.0@[k].entity.title@,
            ),
{
    let sorted = by_listen_count(groups);
    let mut lines: Vec<String> = Vec::new();
    let mut i: usize = 0;
    while i < sorted.len()
        invariant
            i <= sorted.len(),
            lines@.len() == i,
            forall|k: int|
                0 <= k < i ==> (#[trigger] lines@[k])@ == stats_line_text(
                    sorted@[k].listens@.len(),
                    sorted@[k].entity.title@,
                ),
        decreases sorted.len() - i,
    {
        lines.push(stats_line(sorted[i].listen_count(), sorted[i].entity.title.as_str()));
        i += 1;
    }
    (sorted, lines)
}

} // verus!
