//! Stable ranking by score, highest first.

use vstd::prelude::*;
use vstd::set_lib::{lemma_int_range, lemma_set_subset_finite, lemma_subset_equality, set_int_range};
use crate::score::{lemma_not_outranked_transitive, lemma_outranks_carries, Score};
use crate::sequence::reversed;

verus! {

/// Whether an item with the score `first`, that stood at `first_origin`, may
/// stand before one with the score `second` that stood at `second_origin`:
/// either it ranks strictly higher, or the two tie and it stood first.
pub open spec fn may_precede(first: Score, second: Score, first_origin: int, second_origin: int) -> bool {
    first.outranks(&second) || (!second.outranks(&first) && first_origin < second_origin)
}

/// Whether `order` lists every position below `len` exactly once.
pub open spec fn is_rearrangement(order: Seq<int>, len: int) -> bool {
    &&& order.len() == len
    &&& forall|k: int| 0 <= k < len ==> 0 <= #[trigger] order[k] < len
    &&& forall|j: int, k: int| 0 <= j < k < len ==> #[trigger] order[j] != #[trigger] order[k]
}

/// Whether `output` is `input` ranked by `scores`, highest first, with ties
/// left in their input order; `order[k]` is the input position of the item at
/// output position `k`.
pub open spec fn ranked_by<T>(input: Seq<T>, scores: Seq<Score>, output: Seq<T>, order: Seq<int>) -> bool {
    &&& scores.len() == input.len()
    &&& output.len() == input.len()
    &&& is_rearrangement(order, input.len() as int)
    &&& forall|k: int| 0 <= k < output.len() ==> #[trigger] output[k] == input[order[k]]
    &&& forall|j: int, k: int|
        0 <= j < k < output.len() ==> may_precede(
            scores[#[trigger] order[j]],
            scores[#[trigger] order[k]],
            order[j],
            order[k],
        )
}

/// Whether `output` is the stable ranking of `input` by `scores`, highest
/// first.
pub open spec fn is_stable_ranking<T>(input: Seq<T>, scores: Seq<Score>, output: Seq<T>) -> bool {
    exists|order: Seq<int>| ranked_by(input, scores, output, order)
}

/// Whether every score of `scores` can be ranked.
pub open spec fn all_well_formed(scores: Seq<Score>) -> bool {
    forall|i: int| 0 <= i < scores.len() ==> (#[trigger] scores[i]).well_formed()
}

/// Whether the item at position `i` comes before the one at position `j` in
/// the ranking by `scores`; see [`may_precede`].
pub open spec fn precedes(scores: Seq<Score>, i: int, j: int) -> bool {
    may_precede(scores[i], scores[j], i, j)
}

/// Whether `indices` lists every position from `lo` up to, not including,
/// `hi` once, in the order of the ranking by `scores`.
pub open spec fn ranks(scores: Seq<Score>, indices: Seq<usize>, lo: int, hi: int) -> bool {
    &&& indices.len() == hi - lo
    &&& forall|k: int| 0 <= k < indices.len() ==> lo <= #[trigger] indices[k] < hi
    &&& forall|j: int, k: int|
        0 <= j < k < indices.len() ==> precedes(
            scores,
            #[trigger] indices[j] as int,
            #[trigger] indices[k] as int,
        )
}

/// Of two different positions one comes before the other.
pub proof fn lemma_precedes_total(scores: Seq<Score>, i: int, j: int)
    requires
        i != j,
    ensures
        precedes(scores, i, j) || precedes(scores, j, i),
        !(precedes(scores, i, j) && precedes(scores, j, i)),
{
}

/// Coming before carries over a position in between.
pub proof fn lemma_precedes_transitive(scores: Seq<Score>, i: int, j: int, k: int)
    requires
        0 <= i < scores.len(),
        0 <= j < scores.len(),
        0 <= k < scores.len(),
        all_well_formed(scores),
        precedes(scores, i, j),
        precedes(scores, j, k),
    ensures
        precedes(scores, i, k),
{
    let (a, b, c) = (scores[i], scores[j], scores[k]);
    if a.outranks(&b) {
        lemma_outranks_carries(a, b, c);
    } else if b.outranks(&c) {
        if !a.outranks(&c) {
            lemma_not_outranked_transitive(c, a, b);
        }
    } else {
        lemma_not_outranked_transitive(a, b, c);
        lemma_not_outranked_transitive(c, b, a);
    }
}

/// Tests whether the item at position `i` comes before the one at `j`.
fn comes_first(scores: &Vec<Score>, i: usize, j: usize) -> (first: bool)
    requires
        i < scores@.len(),
        j < scores@.len(),
        all_well_formed(scores@),
    ensures
        first == precedes(scores@, i as int, j as int),
{
    if scores[i].is_above(&scores[j]) {
        true
    } else if scores[j].is_above(&scores[i]) {
        false
    } else {
        i < j
    }
}

/// Merges two runs of the ranking that lie side by side into one.
fn merge_ranked(
    scores: &Vec<Score>,
    left: &Vec<usize>,
    right: &Vec<usize>,
    Ghost(lo): Ghost<int>,
    Ghost(mid): Ghost<int>,
    Ghost(hi): Ghost<int>,
) -> (merged: Vec<usize>)
    requires
        0 <= lo <= mid <= hi <= scores@.len(),
        all_well_formed(scores@),
        ranks(scores@, left@, lo, mid),
        ranks(scores@, right@, mid, hi),
    ensures
        ranks(scores@, merged@, lo, hi),
{
    let mut merged: Vec<usize> = Vec::new();
    let mut i: usize = 0;
    let mut j: usize = 0;
    while i < left.len() || j < right.len()
        invariant
            0 <= lo <= mid <= hi <= scores@.len(),
            all_well_formed(scores@),
            ranks(scores@, left@, lo, mid),
            ranks(scores@, right@, mid, hi),
            i <= left@.len(),
            j <= right@.len(),
            merged@.len() == i + j,
            forall|k: int| 0 <= k < merged@.len() ==> lo <= #[trigger] merged@[k] < hi,
            forall|a: int, b: int|
                0 <= a < b < merged@.len() ==> precedes(
                    scores@,
                    #[trigger] merged@[a] as int,
                    #[trigger] merged@[b] as int,
                ),
            i < left@.len() ==> forall|k: int|
                0 <= k < merged@.len() ==> precedes(
                    scores@,
                    #[trigger] merged@[k] as int,
                    left@[i as int] as int,
                ),
            j < right@.len() ==> forall|k: int|
                0 <= k < merged@.len() ==> precedes(
                    scores@,
                    #[trigger] merged@[k] as int,
                    right@[j as int] as int,
                ),
        decreases left@.len() - i + right@.len() - j,
    {
        let from_left = if j >= right.len() {
            true
        } else if i >= left.len() {
            false
        } else {
            comes_first(scores, left[i], right[j])
        };
        let ghost before = merged@;
        if from_left {
            let taken = left[i];
            merged.push(taken);
            proof {
                if i + 1 < left@.len() {
                    let next = left@[i + 1] as int;
                    assert(precedes(scores@, left@[i as int] as int, left@[i + 1] as int));
                    assert forall|k: int| 0 <= k < merged@.len() implies precedes(
                        scores@,
                        #[trigger] merged@[k] as int,
                        next,
                    ) by {
                        if k < before.len() {
                            assert(merged@[k] == before[k]);
                            lemma_precedes_transitive(scores@, before[k] as int, taken as int, next);
                        }
                    }
                }
                if j < right@.len() {
                    assert forall|k: int| 0 <= k < merged@.len() implies precedes(
                        scores@,
                        #[trigger] merged@[k] as int,
                        right@[j as int] as int,
                    ) by {
                        if k < before.len() {
                            assert(merged@[k] == before[k]);
                        }
                    }
                }
                assert forall|a: int, b: int| 0 <= a < b < merged@.len() implies precedes(
                    scores@,
                    #[trigger] merged@[a] as int,
                    #[trigger] merged@[b] as int,
                ) by {
                    assert(merged@[a] == before[a]);
                    if b < before.len() {
                        assert(merged@[b] == before[b]);
                    }
                }
            }
            i += 1;
        } else {
            let taken = right[j];
            merged.push(taken);
            proof {
                if i < left@.len() {
                    lemma_precedes_total(scores@, left@[i as int] as int, taken as int);
                    assert forall|k: int| 0 <= k < merged@.len() implies precedes(
                        scores@,
                        #[trigger] merged@[k] as int,
                        left@[i as int] as int,
                    ) by {
                        if k < before.len() {
                            assert(merged@[k] == before[k]);
                        }
                    }
                }
                if j + 1 < right@.len() {
                    let next = right@[j + 1] as int;
                    assert(precedes(scores@, right@[j as int] as int, right@[j + 1] as int));
                    assert forall|k: int| 0 <= k < merged@.len() implies precedes(
                        scores@,
                        #[trigger] merged@[k] as int,
                        next,
                    ) by {
                        if k < before.len() {
                            assert(merged@[k] == before[k]);
                            lemma_precedes_transitive(scores@, before[k] as int, taken as int, next);
                        }
                    }
                }
                assert forall|a: int, b: int| 0 <= a < b < merged@.len() implies precedes(
                    scores@,
                    #[trigger] merged@[a] as int,
                    #[trigger] merged@[b] as int,
                ) by {
                    assert(merged@[a] == before[a]);
                    if b < before.len() {
                        assert(merged@[b] == before[b]);
                    }
                }
            }
            j += 1;
        }
    }
    merged
}

/// The positions from `lo` up to `hi` in the order of the ranking by
/// `scores`, by merge sort.
fn ranked_indices(scores: &Vec<Score>, lo: usize, hi: usize) -> (indices: Vec<usize>)
    requires
        lo <= hi <= scores@.len(),
        all_well_formed(scores@),
    ensures
        ranks(scores@, indices@, lo as int, hi as int),
    decreases hi - lo,
{
    let mut indices: Vec<usize> = Vec::new();
    if hi - lo == 0 {
        indices
    } else if hi - lo == 1 {
        indices.push(lo);
        indices
    } else {
        let mid = lo + (hi - lo) / 2;
        let left = ranked_indices(scores, lo, mid);
        let right = ranked_indices(scores, mid, hi);
        merge_ranked(scores, &left, &right, Ghost(lo as int), Ghost(mid as int), Ghost(hi as int))
    }
}

/// Puts `items` in the order that `order` names: the item at position
/// `order[k]` comes to stand at position `k`.
fn rearranged<T>(items: Vec<T>, order: &Vec<usize>) -> (placed: Vec<T>)
    requires
        order@.len() == items@.len(),
        forall|k: int| 0 <= k < order@.len() ==> #[trigger] order@[k] < items@.len(),
        forall|j: int, k: int| 0 <= j < k < order@.len() ==> #[trigger] order@[j] != #[trigger] order@[k],
    ensures
        placed@.len() == items@.len(),
        forall|k: int| 0 <= k < placed@.len() ==> #[trigger] placed@[k] == items@[order@[k] as int],
{
    let ghost all = items@;
    let ghost n = all.len() as int;
    let mut rest = reversed(items);
    let mut slots: Vec<Option<T>> = Vec::new();
    while rest.len() > 0
        invariant
            n == all.len(),
            rest@.len() + slots@.len() == n,
            forall|k: int| 0 <= k < rest@.len() ==> #[trigger] rest@[k] == all[n - 1 - k],
            forall|k: int| 0 <= k < slots@.len() ==> #[trigger] slots@[k] == Some(all[k]),
        decreases rest.len(),
    {
        let item = rest.pop().unwrap();
        assert(item == all[slots@.len() as int]);
        slots.push(Some(item));
    }
    let mut placed: Vec<T> = Vec::new();
    let mut k: usize = 0;
    while k < order.len()
        invariant
            n == all.len(),
            order@.len() == n,
            slots@.len() == n,
            k <= n,
            placed@.len() == k,
            forall|i: int| 0 <= i < order@.len() ==> #[trigger] order@[i] < n,
            forall|i: int, j: int|
                0 <= i < j < order@.len() ==> #[trigger] order@[i] != #[trigger] order@[j],
            forall|i: int| k <= i < n ==> slots@[#[trigger] order@[i] as int] == Some(all[order@[i] as int]),
            forall|i: int| 0 <= i < k ==> #[trigger] placed@[i] == all[order@[i] as int],
        decreases order.len() - k,
    {
        let at = order[k];
        let ghost before = slots@;
        slots.push(None);
        let taken = slots.swap_remove(at);
        proof {
            assert(before[at as int] == Some(all[at as int]));
            assert(slots@ =~= before.update(at as int, None));
            assert forall|i: int| k + 1 <= i < n implies slots@[#[trigger] order@[i] as int] == Some(
                all[order@[i] as int],
            ) by {
                assert(order@[k as int] != order@[i]);
                assert(before[order@[i] as int] == Some(all[order@[i] as int]));
            }
        }
        placed.push(taken.unwrap());
        k += 1;
    }
    placed
}

/// Ranks `items` by `scores`, highest first; items with equal scores keep
/// their order. `scores[i]` is the score of `items[i]`.
pub fn rank_descending<T>(items: Vec<T>, scores: Vec<Score>) -> (ranked: Vec<T>)
    requires
        scores@.len() == items@.len(),
        all_well_formed(scores@),
    ensures
        is_stable_ranking(items@, scores@, ranked@),
{
    let order = ranked_indices(&scores, 0, scores.len());
    proof {
        assert forall|j: int, k: int| 0 <= j < k < order@.len() implies #[trigger] order@[j]
            != #[trigger] order@[k] by {
            assert(precedes(scores@, order@[j] as int, order@[k] as int));
        }
    }
    let ranked = rearranged(items, &order);
    proof {
        let positions = order@.map_values(|i: usize| i as int);
        assert forall|j: int, k: int| 0 <= j < k < ranked@.len() implies may_precede(
            scores@[#[trigger] positions[j]],
            scores@[#[trigger] positions[k]],
            positions[j],
            positions[k],
        ) by {
            assert(precedes(scores@, order@[j] as int, order@[k] as int));
        }
        assert(ranked_by(items@, scores@, ranked@, positions));
    }
    ranked
}

/// In a stable ranking an item never stands behind one that it outranks, and
/// of two that tie the one that stood first stays first.
pub proof fn lemma_ranking_respects_scores<T>(
    input: Seq<T>,
    scores: Seq<Score>,
    output: Seq<T>,
    order: Seq<int>,
    j: int,
    k: int,
)
    requires
        ranked_by(input, scores, output, order),
        0 <= j < output.len(),
        0 <= k < output.len(),
        j != k,
    ensures
        scores[order[j]].outranks(&scores[order[k]]) ==> j < k,
        !scores[order[j]].outranks(&scores[order[k]]) && !scores[order[k]].outranks(
            &scores[order[j]],
        ) && order[j] < order[k] ==> j < k,
{
    if k < j {
        assert(may_precede(scores[order[k]], scores[order[j]], order[k], order[j]));
    }
}

/// A rearrangement leaves no position out.
pub proof fn lemma_rearrangement_covers(order: Seq<int>, len: int, position: int)
    requires
        is_rearrangement(order, len),
        0 <= position < len,
    ensures
        exists|k: int| 0 <= k < len && order[k] == position,
{
    let named = order.to_set();
    let all = set_int_range(0, len);
    assert(order.no_duplicates());
    order.unique_seq_to_set();
    lemma_int_range(0, len);
    assert(named.subset_of(all)) by {
        assert forall|a: int| named.contains(a) implies all.contains(a) by {
            let i = choose|i: int| 0 <= i < order.len() && order[i] == a;
            assert(0 <= order[i] < len);
        }
    }
    lemma_set_subset_finite(all, named);
    lemma_subset_equality(named, all);
    assert(all.contains(position));
    assert(named.contains(position));
    let k = choose|k: int| 0 <= k < order.len() && order[k] == position;
    assert(order[k] == position);
}

/// The positions that come before `position` in the ranking by `scores`.
pub open spec fn predecessors(scores: Seq<Score>, position: int) -> Set<int> {
    Set::new(|y: int| 0 <= y < scores.len() && precedes(scores, y, position))
}

/// In a ranking, what stands before an item is exactly what comes before it;
/// so an item stands at the position that counts its predecessors.
pub proof fn lemma_rank_counts_predecessors<T>(
    input: Seq<T>,
    scores: Seq<Score>,
    output: Seq<T>,
    order: Seq<int>,
    k: int,
)
    requires
        ranked_by(input, scores, output, order),
        0 <= k < output.len(),
    ensures
        predecessors(scores, order[k]).finite(),
        predecessors(scores, order[k]).len() == k,
{
    let n = input.len() as int;
    let before = order.take(k);
    let wanted = predecessors(scores, order[k]);
    assert(before.no_duplicates()) by {
        assert forall|i: int, j: int| 0 <= i < before.len() && 0 <= j < before.len() && i
            != j implies before[i] != before[j] by {
            if i < j {
                assert(order[i] != order[j]);
            } else {
                assert(order[j] != order[i]);
            }
        }
    }
    before.unique_seq_to_set();
    assert(before.to_set() =~= wanted) by {
        assert forall|y: int| before.to_set().contains(y) implies wanted.contains(y) by {
            let j = choose|j: int| 0 <= j < before.len() && before[j] == y;
            assert(order[j] == y);
            assert(may_precede(scores[order[j]], scores[order[k]], order[j], order[k]));
        }
        assert forall|y: int| wanted.contains(y) implies before.to_set().contains(y) by {
            lemma_rearrangement_covers(order, n, y);
            let j = choose|j: int| 0 <= j < n && order[j] == y;
            if j > k {
                assert(may_precede(scores[order[k]], scores[order[j]], order[k], order[j]));
            }
            assert(j < k);
            assert(before[j] == y);
        }
    }
    lemma_int_range(0, n);
    assert(wanted.subset_of(set_int_range(0, n)));
    lemma_set_subset_finite(set_int_range(0, n), wanted);
}

/// The stable ranking is settled by the items and their scores: two stable
/// rankings of the same input by the same scores are equal.
pub proof fn lemma_stable_ranking_unique<T>(
    input: Seq<T>,
    scores: Seq<Score>,
    first: Seq<T>,
    second: Seq<T>,
)
    requires
        is_stable_ranking(input, scores, first),
        is_stable_ranking(input, scores, second),
    ensures
        first == second,
{
    let a = choose|order: Seq<int>| ranked_by(input, scores, first, order);
    let b = choose|order: Seq<int>| ranked_by(input, scores, second, order);
    let n = input.len() as int;
    assert forall|k: int| 0 <= k < n implies first[k] == second[k] by {
        lemma_rearrangement_covers(b, n, a[k]);
        let p = choose|p: int| 0 <= p < n && b[p] == a[k];
        lemma_rank_counts_predecessors(input, scores, first, a, k);
        lemma_rank_counts_predecessors(input, scores, second, b, p);
        assert(p == k);
    }
    assert(first =~= second);
}

} // verus!
