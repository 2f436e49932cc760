//! The median of some scores.

use vstd::prelude::*;
use vstd::relations::{sorted_by, total_ordering};

verus! {

/// How scores are ordered.
pub open spec fn at_most() -> spec_fn(u32, u32) -> bool {
    |a: u32, b: u32| a <= b
}

/// The scores from the least to the greatest.
pub open spec fn ascending(scores: Seq<u32>) -> Seq<u32> {
    scores.sort_by(at_most())
}

/// The score in the middle, or, of an even number of scores, the mean of the
/// two in the middle, rounded down.
pub open spec fn median(scores: Seq<u32>) -> int {
    let sorted = ascending(scores);
    let mid = scores.len() as int / 2;
    if scores.len() % 2 == 0 {
        (sorted[mid - 1] + sorted[mid]) / 2
    } else {
        sorted[mid] as int
    }
}

/// Whether there is a median that machine numbers can compute.
pub open spec fn has_median(scores: Seq<u32>) -> bool {
    let sorted = ascending(scores);
    let mid = scores.len() as int / 2;
    &&& scores.len() > 0
    &&& scores.len() % 2 == 0 ==> sorted[mid - 1] + sorted[mid] <= u32::MAX
}

/// Sorted scores are what the same scores in any other order sort to.
pub proof fn lemma_ascending(scores: Seq<u32>, sorted: Seq<u32>)
    requires
        sorted_by(sorted, at_most()),
        sorted.to_multiset() == scores.to_multiset(),
    ensures
        sorted == ascending(scores),
        sorted.len() == scores.len(),
{
    assert(total_ordering(at_most()));
    scores.lemma_sort_by_ensures(at_most());
    vstd::seq_lib::lemma_sorted_unique(sorted, ascending(scores), at_most());
    vstd::seq_lib::to_multiset_len(sorted);
    vstd::seq_lib::to_multiset_len(scores);
}

/// Sorting keeps the scores: each of the sorted ones is one of the given.
pub proof fn lemma_ascending_keeps(scores: Seq<u32>)
    ensures
        ascending(scores).len() == scores.len(),
        sorted_by(ascending(scores), at_most()),
        ascending(scores).to_multiset() == scores.to_multiset(),
        forall|i: int|
            0 <= i < scores.len() ==> scores.contains(#[trigger] ascending(scores)[i]),
{
    broadcast use vstd::seq_lib::group_to_multiset_ensures;

    assert(total_ordering(at_most()));
    scores.lemma_sort_by_ensures(at_most());
    let sorted = ascending(scores);
    vstd::seq_lib::to_multiset_len(sorted);
    vstd::seq_lib::to_multiset_len(scores);
    assert forall|i: int| 0 <= i < scores.len() implies scores.contains(
        #[trigger] sorted[i],
    ) by {
        assert(sorted.contains(sorted[i]));
        assert(sorted.to_multiset().count(sorted[i]) > 0);
    }
}

/// The median depends on the scores alone, not on the order they came in.
pub proof fn law_median_forgets_order(scores: Seq<u32>, shuffled: Seq<u32>)
    requires
        scores.to_multiset() == shuffled.to_multiset(),
    ensures
        median(scores) == median(shuffled),
{
    lemma_ascending_keeps(shuffled);
    lemma_ascending(scores, ascending(shuffled));
}

/// The median lies within any bounds that all the scores keep to.
pub proof fn law_median_within(scores: Seq<u32>, low: u32, high: u32)
    requires
        scores.len() > 0,
        forall|i: int| 0 <= i < scores.len() ==> low <= #[trigger] scores[i] <= high,
    ensures
        low <= median(scores) <= high,
{
    lemma_ascending_keeps(scores);
    let sorted = ascending(scores);
    let mid = scores.len() as int / 2;
    assert(scores.contains(sorted[mid]));
    if scores.len() % 2 == 0 {
        assert(scores.contains(sorted[mid - 1]));
    }
}

/// Whether a score is below `bound`.
pub open spec fn is_below(bound: u32) -> spec_fn(u32) -> bool {
    |score: u32| score < bound
}

/// Whether a score is at or below `bound`.
pub open spec fn is_up_to(bound: u32) -> spec_fn(u32) -> bool {
    |score: u32| score <= bound
}

/// Whether a score is at or above `bound`.
pub open spec fn is_from(bound: u32) -> spec_fn(u32) -> bool {
    |score: u32| score >= bound
}

/// Whether `score` has place `k` among the scores, counted from zero: at most
/// `k` are below it, and more than `k` at or below it.
pub open spec fn has_place(scores: Seq<u32>, score: u32, k: int) -> bool {
    scores.filter(is_below(score)).len() <= k < scores.filter(is_up_to(score)).len()
}

proof fn lemma_count_forgets_order(scores: Seq<u32>, kept: spec_fn(u32) -> bool)
    ensures
        scores.filter(kept).len() == scores.to_multiset().filter(kept).len(),
    decreases scores.len(),
{
    broadcast use {
        vstd::multiset::group_multiset_axioms,
        vstd::multiset::group_multiset_properties,
        vstd::seq_lib::group_to_multiset_ensures,
    };

    reveal(Seq::filter);
    if scores.len() > 0 {
        let short = scores.drop_last();
        let last = scores.last();
        lemma_count_forgets_order(short, kept);
        assert(scores =~= short.push(last));
        assert(scores.to_multiset() =~= short.to_multiset().insert(last));
        if kept(last) {
            assert(scores.to_multiset().filter(kept) =~= short.to_multiset().filter(kept).insert(
                last,
            ));
        } else {
            assert(scores.to_multiset().filter(kept) =~= short.to_multiset().filter(kept));
        }
    } else {
        assert(scores.to_multiset().filter(kept) =~= vstd::multiset::Multiset::empty());
    }
}

/// A filter that drops everything from place `k` on keeps at most `k`.
proof fn lemma_keeps_at_most(scores: Seq<u32>, kept: spec_fn(u32) -> bool, k: int)
    requires
        0 <= k,
        forall|i: int| k <= i < scores.len() ==> !kept(#[trigger] scores[i]),
    ensures
        scores.filter(kept).len() <= k,
    decreases scores.len(),
{
    reveal(Seq::filter);
    if scores.len() > 0 {
        let short = scores.drop_last();
        assert forall|i: int| k <= i < short.len() implies !kept(#[trigger] short[i]) by {
            assert(short[i] == scores[i]);
        }
        if scores.len() > k {
            assert(!kept(scores[scores.len() - 1]));
            lemma_keeps_at_most(short, kept, k);
        } else {
            short.lemma_filter_len(kept);
        }
    }
}

/// A filter that keeps everything before place `k` keeps at least `k`.
proof fn lemma_keeps_at_least(scores: Seq<u32>, kept: spec_fn(u32) -> bool, k: int)
    requires
        0 <= k <= scores.len(),
        forall|i: int| 0 <= i < k ==> kept(#[trigger] scores[i]),
    ensures
        scores.filter(kept).len() >= k,
    decreases scores.len(),
{
    reveal(Seq::filter);
    if k > 0 {
        let short = scores.drop_last();
        let rest = if k == scores.len() {
            k - 1
        } else {
            k
        };
        assert forall|i: int| 0 <= i < rest implies kept(#[trigger] short[i]) by {
            assert(short[i] == scores[i]);
        }
        if k == scores.len() {
            assert(kept(scores[k - 1]));
        }
        lemma_keeps_at_least(short, kept, rest);
    }
}

/// The scores at the places of a sorted sequence.
proof fn lemma_places(scores: Seq<u32>, score: u32, k: int)
    requires
        0 <= k < scores.len(),
    ensures
        has_place(scores, score, k) <==> ascending(scores)[k] == score,
{
    let sorted = ascending(scores);
    lemma_ascending_keeps(scores);
    lemma_count_forgets_order(scores, is_below(score));
    lemma_count_forgets_order(scores, is_up_to(score));
    lemma_count_forgets_order(sorted, is_below(score));
    lemma_count_forgets_order(sorted, is_up_to(score));
    assert forall|i: int, j: int| 0 <= i < j < sorted.len() implies sorted[i] <= sorted[j] by {
        assert(at_most()(sorted[i], sorted[j]));
    }
    if sorted[k] < score {
        lemma_keeps_at_least(sorted, is_below(score), k + 1);
    } else {
        lemma_keeps_at_most(sorted, is_below(score), k);
        if sorted[k] > score {
            lemma_keeps_at_most(sorted, is_up_to(score), k);
        } else {
            lemma_keeps_at_least(sorted, is_up_to(score), k + 1);
        }
    }
}

/// The median is the mean, rounded down, of the scores at the two middle
/// places, which are one place where the number of scores is odd.
pub proof fn law_median_is_in_the_middle(scores: Seq<u32>, low: u32, high: u32)
    requires
        scores.len() > 0,
        has_place(scores, low, (scores.len() - 1) / 2),
        has_place(scores, high, scores.len() as int / 2),
    ensures
        median(scores) == (low + high) / 2,
        scores.len() % 2 == 1 ==> low == high && median(scores) == low,
        low <= median(scores) <= high,
        has_median(scores) <==> scores.len() % 2 == 1 || low + high <= u32::MAX,
{
    lemma_places(scores, low, (scores.len() - 1) / 2);
    lemma_places(scores, high, scores.len() as int / 2);
    lemma_ascending_keeps(scores);
    if low != high {
        assert(at_most()(
            ascending(scores)[(scores.len() - 1) / 2],
            ascending(scores)[scores.len() as int / 2],
        ));
    }
}

/// There are such scores in the middle, whatever the scores; without any there
/// is no median.
pub proof fn law_there_is_a_middle(scores: Seq<u32>)
    ensures
        scores.len() == 0 ==> !has_median(scores),
        scores.len() > 0 ==> exists|low: u32, high: u32|
            {
                &&& scores.contains(low)
                &&& scores.contains(high)
                &&& #[trigger] has_place(scores, low, (scores.len() - 1) / 2)
                &&& #[trigger] has_place(scores, high, scores.len() as int / 2)
            },
{
    if scores.len() > 0 {
        let low = ascending(scores)[(scores.len() - 1) / 2];
        let high = ascending(scores)[scores.len() as int / 2];
        lemma_ascending_keeps(scores);
        lemma_places(scores, low, (scores.len() - 1) / 2);
        lemma_places(scores, high, scores.len() as int / 2);
        assert(scores.contains(low) && scores.contains(high));
        assert(has_place(scores, low, (scores.len() - 1) / 2));
        assert(has_place(scores, high, scores.len() as int / 2));
    }
}

/// Of an odd number of scores the median is one, with more than half of them
/// at or below it and more than half at or above it. Of an even number it is
/// the mean, rounded down, of two of them, with half at or below the lower one
/// and half at or above the higher, and none in between.
pub proof fn law_median_parts_the_scores(scores: Seq<u32>)
    requires
        scores.len() > 0,
    ensures
        scores.len() % 2 == 1 ==> exists|middle: u32|
            {
                &&& #[trigger] scores.contains(middle)
                &&& median(scores) == middle
                &&& 2 * scores.filter(is_up_to(middle)).len() > scores.len()
                &&& 2 * scores.filter(is_from(middle)).len() > scores.len()
            },
        scores.len() % 2 == 0 ==> exists|low: u32, high: u32|
            {
                &&& #[trigger] scores.contains(low)
                &&& #[trigger] scores.contains(high)
                &&& low <= high
                &&& median(scores) == (low + high) / 2
                &&& 2 * scores.filter(is_up_to(low)).len() >= scores.len()
                &&& 2 * scores.filter(is_from(high)).len() >= scores.len()
                &&& low < high ==> 2 * scores.filter(is_up_to(low)).len() == scores.len() && 2
                    * scores.filter(is_from(high)).len() == scores.len()
            },
{
    let sorted = ascending(scores);
    let k = (scores.len() - 1) / 2;
    let mid = scores.len() as int / 2;
    let low = sorted[k];
    let high = sorted[mid];
    lemma_ascending_keeps(scores);
    lemma_places(scores, low, k);
    lemma_places(scores, high, mid);
    lemma_complement(scores, high);
    assert(scores.contains(low) && scores.contains(high));
    if low < high {
        lemma_count_forgets_order(scores, is_up_to(low));
        lemma_count_forgets_order(sorted, is_up_to(low));
        lemma_count_forgets_order(scores, is_below(high));
        lemma_count_forgets_order(sorted, is_below(high));
        assert forall|i: int, j: int| 0 <= i < j < sorted.len() implies sorted[i] <= sorted[j] by {
            assert(at_most()(sorted[i], sorted[j]));
        }
        lemma_keeps_at_most(sorted, is_up_to(low), mid);
        lemma_keeps_at_least(sorted, is_below(high), mid);
    }
    if scores.len() % 2 == 1 {
        assert(low == high);
    } else {
        assert(low <= high) by {
            assert(at_most()(sorted[k], sorted[mid]));
        }
    }
}

proof fn lemma_complement(scores: Seq<u32>, bound: u32)
    ensures
        scores.filter(is_below(bound)).len() + scores.filter(is_from(bound)).len() == scores.len(),
    decreases scores.len(),
{
    reveal(Seq::filter);
    if scores.len() > 0 {
        lemma_complement(scores.drop_last(), bound);
    }
}

/// The scores from the least to the greatest.
pub fn sort(scores: &Vec<u32>) -> (sorted: Vec<u32>)
    ensures
        sorted@ == ascending(scores@),
        sorted@.len() == scores@.len(),
{
    let mut sorted: Vec<u32> = Vec::new();
    let mut i: usize = 0;
    assert(scores@.take(0) =~= sorted@);
    while i < scores.len()
        invariant
            i <= scores@.len(),
            sorted@.len() == i,
            sorted_by(sorted@, at_most()),
            sorted@.to_multiset() == scores@.take(i as int).to_multiset(),
        decreases scores@.len() - i,
    {
        let score: u32 = scores[i];
        let mut at: usize = 0;
        while at < sorted.len() && sorted[at] <= score
            invariant
                at <= sorted@.len(),
                forall|k: int| 0 <= k < at ==> (#[trigger] sorted@[k]) <= score,
            decreases sorted@.len() - at,
        {
            at = at + 1;
        }
        let ghost before = sorted@;
        sorted.insert(at, score);
        proof {
            assert(scores@.take(i + 1) =~= scores@.take(i as int).push(score));
            assert(sorted@ == before.insert(at as int, score));
            vstd::seq_lib::to_multiset_insert(before, at as int, score);
            vstd::seq_lib::to_multiset_build(scores@.take(i as int), score);
            assert forall|j: int, k: int| 0 <= j < k < sorted@.len() implies #[trigger] at_most()(
                sorted@[j],
                sorted@[k],
            ) by {
                if at < before.len() {
                    assert(score <= before[at as int]);
                }
                let from = if j < at {
                    j
                } else {
                    j - 1
                };
                let to = if k < at {
                    k
                } else {
                    k - 1
                };
                if j != at && k != at {
                    assert(at_most()(before[from], before[to]));
                } else if j == at && k - 1 != at {
                    assert(at_most()(before[at as int], before[to]));
                }
            }
        }
        i = i + 1;
    }
    proof {
        assert(scores@.take(i as int) =~= scores@);
        lemma_ascending(scores@, sorted@);
    }
    sorted
}

/// Whether there is a median that machine numbers can compute.
pub fn has_median_of(scores: &Vec<u32>) -> (b: bool)
    ensures
        b == has_median(scores@),
{
    let sorted = sort(scores);
    if sorted.is_empty() {
        return false;
    }
    let mid: usize = sorted.len() / 2;
    sorted.len() % 2 == 1 || sorted[mid - 1].checked_add(sorted[mid]).is_some()
}

/// The median of some scores.
pub fn median_of(scores: &Vec<u32>) -> (m: u32)
    requires
        has_median(scores@),
    ensures
        m == median(scores@),
{
    let sorted = sort(scores);
    let mid: usize = sorted.len() / 2;
    if sorted.len() % 2 == 0 {
        (sorted[mid - 1] + sorted[mid]) / 2
    } else {
        sorted[mid]
    }
}

/// Sorting gives the same scores from the least to the greatest.
pub proof fn law_sorted(scores: Seq<u32>)
    ensures
        ascending(scores).len() == scores.len(),
        ascending(scores).to_multiset() == scores.to_multiset(),
        forall|i: int, j: int|
            0 <= i < j < scores.len() ==> #[trigger] ascending(scores)[i] <= #[trigger] ascending(
                scores,
            )[j],
{
    lemma_ascending_keeps(scores);
    assert forall|i: int, j: int| 0 <= i < j < scores.len() implies #[trigger] ascending(scores)[i]
        <= #[trigger] ascending(scores)[j] by {
        assert(at_most()(ascending(scores)[i], ascending(scores)[j]));
    }
}

} // verus!
