//! How an amount is divided: the treasury's fee, then the contributors' shares.
//!
//! Every share is rounded down, and what the rounding leaves over goes to the
//! contributor with the largest share, the first of them where several are
//! largest. So nothing stays behind.

use crate::host::Address;
use vstd::prelude::*;

verus! {

/// What the shares of a split add up to, in basis points.
pub const TOTAL_BPS: i128 = 10_000;

/// The treasury's fee, in basis points.
pub const TREASURY_BPS: i128 = 500;

/// The contributors of a split and their shares in basis points, as plain
/// values.
pub open spec fn share_views(contributors: Seq<(Address, u32)>) -> Seq<(Seq<char>, u32)> {
    Seq::new(contributors.len(), |i: int| (contributors[i].0@, contributors[i].1))
}

/// The shares of all contributors together.
pub open spec fn total_bps(contributors: Seq<(Seq<char>, u32)>) -> int
    decreases contributors.len(),
{
    if contributors.len() == 0 {
        0
    } else {
        total_bps(contributors.drop_last()) + contributors.last().1
    }
}

/// The treasury's fee, rounded down in favour of the contributors.
pub open spec fn fee(amount: int) -> int {
    amount * TREASURY_BPS / TOTAL_BPS as int
}

/// A share of `sum`, rounded down.
pub open spec fn floor_share(sum: int, bps: u32) -> int {
    sum * bps / TOTAL_BPS as int
}

/// The rounded shares of `sum`.
pub open spec fn floor_shares(contributors: Seq<(Seq<char>, u32)>, sum: int) -> Seq<int> {
    Seq::new(contributors.len(), |i: int| floor_share(sum, contributors[i].1))
}

/// What a list of amounts adds up to.
pub open spec fn added(amounts: Seq<int>) -> int
    decreases amounts.len(),
{
    if amounts.len() == 0 {
        0
    } else {
        added(amounts.drop_last()) + amounts.last()
    }
}

/// The place of the largest share, the first of them.
pub open spec fn largest(contributors: Seq<(Seq<char>, u32)>) -> int
    decreases contributors.len(),
{
    if contributors.len() <= 1 {
        0
    } else {
        let before = largest(contributors.drop_last());
        if contributors.last().1 > contributors[before].1 {
            contributors.len() - 1
        } else {
            before
        }
    }
}

/// What rounding leaves over.
pub open spec fn dust(contributors: Seq<(Seq<char>, u32)>, sum: int) -> int {
    sum - added(floor_shares(contributors, sum))
}

/// What each contributor gets of `sum`.
pub open spec fn payouts(contributors: Seq<(Seq<char>, u32)>, sum: int) -> Seq<int> {
    let floors = floor_shares(contributors, sum);
    let left = dust(contributors, sum);
    let at = largest(contributors);
    if left > 0 {
        floors.update(at, floors[at] + left)
    } else {
        floors
    }
}

/// Whether `amount` can be divided in machine numbers.
pub open spec fn divisible(contributors: Seq<(Seq<char>, u32)>, amount: int) -> bool {
    let sum = amount - fee(amount);
    &&& contributors.len() > 0
    &&& amount * TREASURY_BPS <= i128::MAX
    &&& forall|i: int|
        0 <= i < contributors.len() ==> sum * (#[trigger] contributors[i]).1 <= i128::MAX
    &&& added(floor_shares(contributors, sum)) <= i128::MAX
}

/// The amounts as plain numbers.
pub open spec fn amounts(items: Seq<i128>) -> Seq<int> {
    Seq::new(items.len(), |i: int| items[i] as int)
}

proof fn lemma_floor_share(sum: int, bps: u32)
    requires
        0 <= sum,
    ensures
        0 <= sum * bps,
        0 <= floor_share(sum, bps),
        floor_share(sum, bps) * 10_000 <= sum * bps < (floor_share(sum, bps) + 1) * 10_000,
{
    assert(0 <= sum * bps) by (nonlinear_arith)
        requires
            0 <= sum,
            0 <= bps,
    ;
}

proof fn lemma_added_grows(amounts: Seq<int>, upto: int)
    requires
        0 <= upto <= amounts.len(),
        forall|i: int| 0 <= i < amounts.len() ==> 0 <= #[trigger] amounts[i],
    ensures
        0 <= added(amounts.take(upto)) <= added(amounts),
    decreases amounts.len(),
{
    if upto == amounts.len() {
        assert(amounts.take(upto) =~= amounts);
        if upto > 0 {
            let rest = amounts.drop_last();
            assert forall|i: int| 0 <= i < rest.len() implies 0 <= #[trigger] rest[i] by {
                assert(rest[i] == amounts[i]);
            }
            lemma_added_grows(rest, upto - 1);
            assert(rest.take(upto - 1) =~= rest);
        }
    } else {
        let rest = amounts.drop_last();
        assert forall|i: int| 0 <= i < rest.len() implies 0 <= #[trigger] rest[i] by {
            assert(rest[i] == amounts[i]);
        }
        assert(rest.take(upto) =~= amounts.take(upto));
        lemma_added_grows(rest, upto);
    }
}

proof fn lemma_added_update(amounts: Seq<int>, at: int, value: int)
    requires
        0 <= at < amounts.len(),
    ensures
        added(amounts.update(at, value)) == added(amounts) - amounts[at] + value,
    decreases amounts.len(),
{
    if at == amounts.len() - 1 {
        assert(amounts.update(at, value).drop_last() =~= amounts.drop_last());
    } else {
        assert(amounts.update(at, value).drop_last() =~= amounts.drop_last().update(at, value));
        lemma_added_update(amounts.drop_last(), at, value);
    }
}

/// Of the largest share nobody has more, and nobody before has as much.
pub proof fn law_largest(contributors: Seq<(Seq<char>, u32)>)
    requires
        contributors.len() > 0,
    ensures
        0 <= largest(contributors) < contributors.len(),
        forall|i: int|
            0 <= i < contributors.len() ==> (#[trigger] contributors[i]).1 <= contributors[largest(
                contributors,
            )].1,
        forall|i: int|
            0 <= i < largest(contributors) ==> (#[trigger] contributors[i]).1
                < contributors[largest(contributors)].1,
    decreases contributors.len(),
{
    if contributors.len() > 1 {
        let rest = contributors.drop_last();
        law_largest(rest);
        assert forall|i: int| 0 <= i < contributors.len() implies (#[trigger] contributors[i]).1
            <= contributors[largest(contributors)].1 by {
            if i < rest.len() {
                assert(rest[i] == contributors[i]);
            }
        }
        assert forall|i: int| 0 <= i < largest(contributors) implies (#[trigger] contributors[i]).1
            < contributors[largest(contributors)].1 by {
            assert(rest[i] == contributors[i]);
        }
    }
}

/// What is left over after rounding, times the whole, is what the rounding of
/// each share took: less than one whole for each contributor.
proof fn lemma_dust_bounds(contributors: Seq<(Seq<char>, u32)>, sum: int)
    requires
        0 <= sum,
    ensures
        added(floor_shares(contributors, sum)) * 10_000 <= sum * total_bps(contributors),
        sum * total_bps(contributors) <= added(floor_shares(contributors, sum)) * 10_000
            + contributors.len() * 9_999,
    decreases contributors.len(),
{
    if contributors.len() > 0 {
        let rest = contributors.drop_last();
        let last = contributors.last().1;
        lemma_dust_bounds(rest, sum);
        lemma_floor_share(sum, last);
        assert(floor_shares(contributors, sum).drop_last() =~= floor_shares(rest, sum));
        assert(sum * (total_bps(rest) + last) == sum * total_bps(rest) + sum * last)
            by (nonlinear_arith);
    }
}

/// Rounding leaves nothing negative over, and less than one unit for each
/// contributor.
pub proof fn law_dust_is_small(contributors: Seq<(Seq<char>, u32)>, sum: int)
    requires
        0 <= sum,
        total_bps(contributors) == TOTAL_BPS,
    ensures
        contributors.len() > 0,
        0 <= dust(contributors, sum) < contributors.len(),
{
    lemma_dust_bounds(contributors, sum);
}

/// The contributors get all of `sum`, to the last unit.
pub proof fn law_all_is_paid_out(contributors: Seq<(Seq<char>, u32)>, sum: int)
    requires
        0 <= sum,
        total_bps(contributors) == TOTAL_BPS,
    ensures
        added(payouts(contributors, sum)) == sum,
{
    law_dust_is_small(contributors, sum);
    law_largest(contributors);
    let floors = floor_shares(contributors, sum);
    let at = largest(contributors);
    lemma_added_update(floors, at, floors[at] + dust(contributors, sum));
}

/// Nobody gets less than the rounded share; only the largest shareholder gets
/// more, and less than one unit for each contributor.
pub proof fn law_only_the_largest_gets_dust(
    contributors: Seq<(Seq<char>, u32)>,
    sum: int,
    at: int,
)
    requires
        0 <= sum,
        total_bps(contributors) == TOTAL_BPS,
        0 <= at < contributors.len(),
    ensures
        ({
            let paid = payouts(contributors, sum)[at];
            let floor = floor_share(sum, contributors[at].1);
            &&& 0 <= floor <= paid
            &&& at != largest(contributors) ==> paid == floor
            &&& at == largest(contributors) ==> paid - floor < contributors.len()
        }),
{
    law_dust_is_small(contributors, sum);
    law_largest(contributors);
    lemma_floor_share(sum, contributors[at].1);
}

/// The fee is a twentieth, rounded down; fee and shares together are the
/// amount.
pub proof fn law_fee(amount: int)
    requires
        0 <= amount,
    ensures
        0 <= fee(amount),
        fee(amount) * 20 <= amount < (fee(amount) + 1) * 20,
        amount > 0 ==> fee(amount) < amount,
{
}

/// A split whose shares make a whole divides every amount whose product with
/// the whole can be represented.
pub proof fn law_whole_split_is_divisible(contributors: Seq<(Seq<char>, u32)>, amount: int)
    requires
        total_bps(contributors) == TOTAL_BPS,
        0 < amount,
        amount * TOTAL_BPS <= i128::MAX,
    ensures
        divisible(contributors, amount),
{
    let sum = amount - fee(amount);
    law_fee(amount);
    law_dust_is_small(contributors, sum);
    assert forall|i: int| 0 <= i < contributors.len() implies sum * (#[trigger] contributors[i]).1
        <= i128::MAX by {
        lemma_one_of_total(contributors, i);
        let bps = contributors[i].1;
        assert(sum * bps <= amount * 10_000) by (nonlinear_arith)
            requires
                0 <= sum <= amount,
                0 <= bps <= 10_000,
        ;
    }
}

proof fn lemma_one_of_total(contributors: Seq<(Seq<char>, u32)>, at: int)
    requires
        0 <= at < contributors.len(),
    ensures
        contributors[at].1 <= total_bps(contributors),
    decreases contributors.len(),
{
    if at == contributors.len() - 1 {
        lemma_total_not_negative(contributors.drop_last());
    } else {
        lemma_one_of_total(contributors.drop_last(), at);
    }
}

pub proof fn lemma_total_not_negative(contributors: Seq<(Seq<char>, u32)>)
    ensures
        0 <= total_bps(contributors),
    decreases contributors.len(),
{
    if contributors.len() > 0 {
        lemma_total_not_negative(contributors.drop_last());
    }
}

/// The part of a total is at most the total.
pub proof fn lemma_part_of_total(contributors: Seq<(Seq<char>, u32)>, upto: int)
    requires
        0 <= upto <= contributors.len(),
    ensures
        0 <= total_bps(contributors.take(upto)) <= total_bps(contributors),
    decreases contributors.len(),
{
    lemma_total_not_negative(contributors.take(upto));
    if upto == contributors.len() {
        assert(contributors.take(upto) =~= contributors);
    } else {
        assert(contributors.drop_last().take(upto) =~= contributors.take(upto));
        lemma_part_of_total(contributors.drop_last(), upto);
    }
}

/// The shares of all contributors together.
pub fn sum_bps(contributors: &Vec<(Address, u32)>) -> (total: u32)
    requires
        total_bps(share_views(contributors@)) <= u32::MAX,
    ensures
        total == total_bps(share_views(contributors@)),
{
    let ghost shares = share_views(contributors@);
    let mut total: u32 = 0;
    let mut i: usize = 0;
    while i < contributors.len()
        invariant
            shares == share_views(contributors@),
            i <= shares.len(),
            total == total_bps(shares.take(i as int)),
            total_bps(shares) <= u32::MAX,
        decreases shares.len() - i,
    {
        proof {
            lemma_part_of_total(shares, i + 1);
            assert(shares.take(i + 1).drop_last() =~= shares.take(i as int));
        }
        total = total + contributors[i].1;
        i = i + 1;
    }
    assert(shares.take(i as int) =~= shares);
    total
}

/// Whether `amount` can be divided in machine numbers.
pub fn is_divisible(contributors: &Vec<(Address, u32)>, amount: i128) -> (b: bool)
    requires
        0 <= amount,
    ensures
        b == divisible(share_views(contributors@), amount as int),
{
    let ghost shares = share_views(contributors@);
    if contributors.is_empty() {
        return false;
    }
    let scaled = amount.checked_mul(TREASURY_BPS);
    let product: i128 = match scaled {
        None => {
            assert(amount * TREASURY_BPS > i128::MAX);
            return false;
        },
        Some(product) => product,
    };
    proof {
        law_fee(amount as int);
    }
    let sum: i128 = amount - product / TOTAL_BPS;
    let ghost floors = floor_shares(shares, sum as int);
    proof {
        assert forall|j: int| 0 <= j < floors.len() implies 0 <= #[trigger] floors[j] by {
            lemma_floor_share(sum as int, shares[j].1);
        }
    }
    let mut allocated: i128 = 0;
    let mut i: usize = 0;
    while i < contributors.len()
        invariant
            shares == share_views(contributors@),
            shares.len() > 0,
            0 <= amount,
            amount * TREASURY_BPS <= i128::MAX,
            0 <= sum,
            sum == amount - fee(amount as int),
            floors == floor_shares(shares, sum as int),
            i <= shares.len(),
            allocated == added(floors.take(i as int)),
            forall|j: int| 0 <= j < i ==> sum * (#[trigger] shares[j]).1 <= i128::MAX,
            forall|j: int| 0 <= j < floors.len() ==> 0 <= #[trigger] floors[j],
        decreases shares.len() - i,
    {
        let bps: u32 = contributors[i].1;
        proof {
            assert(shares[i as int].1 == bps);
            lemma_floor_share(sum as int, bps);
            lemma_added_grows(floors, i + 1);
            assert(floors.take(i + 1).drop_last() =~= floors.take(i as int));
            assert(sum * (bps as i128) == sum * bps);
        }
        let share: i128 = match sum.checked_mul(bps as i128) {
            None => {
                assert(sum * shares[i as int].1 > i128::MAX);
                return false;
            },
            Some(product) => product / TOTAL_BPS,
        };
        match allocated.checked_add(share) {
            None => {
                assert(added(floors) > i128::MAX);
                return false;
            },
            Some(grown) => {
                allocated = grown;
            },
        }
        i = i + 1;
    }
    assert(floors.take(i as int) =~= floors);
    true
}

/// The treasury's fee.
pub fn fee_of(amount: i128) -> (n: i128)
    requires
        0 <= amount,
        amount * TREASURY_BPS <= i128::MAX,
    ensures
        n == fee(amount as int),
{
    amount * TREASURY_BPS / TOTAL_BPS
}

/// What each contributor gets of `sum`.
pub fn payouts_of(contributors: &Vec<(Address, u32)>, sum: i128) -> (r: Vec<i128>)
    requires
        0 <= sum,
        contributors@.len() > 0,
        forall|i: int|
            0 <= i < contributors@.len() ==> sum * (#[trigger] share_views(contributors@)[i]).1
                <= i128::MAX,
        added(floor_shares(share_views(contributors@), sum as int)) <= i128::MAX,
    ensures
        amounts(r@) == payouts(share_views(contributors@), sum as int),
        r@.len() == contributors@.len(),
{
    let ghost shares = share_views(contributors@);
    let ghost floors = floor_shares(shares, sum as int);
    let mut paid: Vec<i128> = Vec::new();
    let mut allocated: i128 = 0;
    let mut largest_index: usize = 0;
    let mut largest_bps: u32 = 0;
    let mut i: usize = 0;
    proof {
        assert forall|j: int| 0 <= j < floors.len() implies 0 <= #[trigger] floors[j] by {
            lemma_floor_share(sum as int, shares[j].1);
        }
    }
    while i < contributors.len()
        invariant
            0 <= sum,
            shares == share_views(contributors@),
            floors == floor_shares(shares, sum as int),
            shares.len() > 0,
            i <= shares.len(),
            paid@.len() == i,
            forall|j: int| 0 <= j < i ==> (#[trigger] paid@[j]) == floors[j],
            allocated == added(floors.take(i as int)),
            i > 0 ==> largest_index == largest(shares.take(i as int)) && largest_index < i
                && largest_bps == shares[largest_index as int].1,
            i == 0 ==> largest_index == 0 && largest_bps == 0,
            forall|j: int| 0 <= j < shares.len() ==> sum * (#[trigger] shares[j]).1 <= i128::MAX,
            forall|j: int| 0 <= j < floors.len() ==> 0 <= #[trigger] floors[j],
            added(floors) <= i128::MAX,
        decreases shares.len() - i,
    {
        let bps: u32 = contributors[i].1;
        assert(shares[i as int].1 == bps);
        proof {
            lemma_floor_share(sum as int, bps);
            lemma_added_grows(floors, i + 1);
            lemma_added_grows(floors, i as int);
            assert(floors.take(i + 1).drop_last() =~= floors.take(i as int));
            assert(shares.take(i + 1).drop_last() =~= shares.take(i as int));
            assert(sum * (bps as i128) == sum * bps);
        }
        let payout: i128 = sum * (bps as i128) / TOTAL_BPS;
        paid.push(payout);
        allocated = allocated + payout;
        if bps > largest_bps {
            largest_bps = bps;
            largest_index = i;
        }
        i = i + 1;
    }
    assert(floors.take(i as int) =~= floors);
    assert(shares.take(i as int) =~= shares);
    proof {
        lemma_added_grows(floors, 0);
        law_largest(shares);
    }
    let dust: i128 = sum - allocated;
    if dust > 0 {
        proof {
            lemma_one_of_added(floors, largest_index as int);
        }
        let adjusted: i128 = paid[largest_index] + dust;
        paid.set(largest_index, adjusted);
    }
    assert(amounts(paid@) =~= payouts(shares, sum as int));
    paid
}

/// One of some amounts is at most all of them together.
pub proof fn lemma_one_of_added(amounts: Seq<int>, at: int)
    requires
        0 <= at < amounts.len(),
        forall|i: int| 0 <= i < amounts.len() ==> 0 <= #[trigger] amounts[i],
    ensures
        amounts[at] <= added(amounts),
{
    lemma_added_grows(amounts, at + 1);
    lemma_added_grows(amounts, at);
    assert(amounts.take(at + 1).drop_last() =~= amounts.take(at));
}

// What the parts of a division are, without the functions that compute them.

/// Adds an amount.
pub open spec fn adding() -> spec_fn(int, int) -> int {
    |sum: int, amount: int| sum + amount
}

/// Adds a contributor's share.
pub open spec fn adding_bps() -> spec_fn(int, (Seq<char>, u32)) -> int {
    |sum: int, share: (Seq<char>, u32)| sum + share.1
}

/// The totals run over all amounts, and over all shares.
pub proof fn law_totals(items: Seq<int>, contributors: Seq<(Seq<char>, u32)>)
    ensures
        added(items) == items.fold_left(0, adding()),
        total_bps(contributors) == contributors.fold_left(0, adding_bps()),
    decreases items.len() + contributors.len(),
{
    if items.len() > 0 {
        law_totals(items.drop_last(), seq![]);
    }
    if contributors.len() > 0 {
        law_totals(seq![], contributors.drop_last());
    }
}

/// Contributors are seen one by one, each as an address and a share.
pub proof fn law_share_views(contributors: Seq<(Address, u32)>, items: Seq<i128>)
    ensures
        share_views(contributors).len() == contributors.len(),
        forall|i: int|
            0 <= i < contributors.len() ==> (#[trigger] share_views(contributors)[i]).0
                == contributors[i].0@ && share_views(contributors)[i].1 == contributors[i].1,
        amounts(items).len() == items.len(),
        forall|i: int| 0 <= i < items.len() ==> #[trigger] amounts(items)[i] == items[i],
{
}

/// Whether `floors` are the shares of `sum`, each in ten-thousandths and
/// rounded down.
pub open spec fn are_floors(
    floors: Seq<int>,
    contributors: Seq<(Seq<char>, u32)>,
    sum: int,
) -> bool {
    &&& floors.len() == contributors.len()
    &&& forall|i: int|
        0 <= i < floors.len() ==> (#[trigger] floors[i]) * 10_000 <= sum * contributors[i].1
            < (floors[i] + 1) * 10_000
}

/// Whether the share at `at` is the largest, and the first as large.
pub open spec fn is_largest(contributors: Seq<(Seq<char>, u32)>, at: int) -> bool {
    &&& 0 <= at < contributors.len()
    &&& forall|i: int|
        0 <= i < contributors.len() ==> (#[trigger] contributors[i]).1 <= contributors[at].1
    &&& forall|i: int| 0 <= i < at ==> (#[trigger] contributors[i]).1 < contributors[at].1
}

/// Everyone gets their share of `sum`, rounded down, and the first of those
/// with the largest share also what the rounding left over.
pub proof fn law_what_each_gets(
    contributors: Seq<(Seq<char>, u32)>,
    sum: int,
    floors: Seq<int>,
    first: int,
    at: int,
)
    requires
        0 <= sum,
        are_floors(floors, contributors, sum),
        is_largest(contributors, first),
        0 <= at < contributors.len(),
    ensures
        ({
            let paid = payouts(contributors, sum);
            let left = sum - floors.fold_left(0, adding());
            &&& paid.len() == contributors.len()
            &&& at != first ==> paid[at] == floors[at]
            &&& at == first && left > 0 ==> paid[at] == floors[at] + left
            &&& at == first && left <= 0 ==> paid[at] == floors[at]
        }),
{
    law_totals(floors, contributors);
    law_largest(contributors);
    lemma_floors(contributors, sum, floors);
    let place = largest(contributors);
    if place < first {
        assert(contributors[place].1 < contributors[first].1);
    }
    if first < place {
        assert(contributors[first].1 < contributors[place].1);
    }
}

proof fn lemma_floors(contributors: Seq<(Seq<char>, u32)>, sum: int, floors: Seq<int>)
    requires
        0 <= sum,
        are_floors(floors, contributors, sum),
    ensures
        floors == floor_shares(contributors, sum),
{
    assert forall|i: int| 0 <= i < floors.len() implies floors[i] == floor_shares(
        contributors,
        sum,
    )[i] by {
        lemma_floor_share(sum, contributors[i].1);
        assert(floors[i] * 10_000 <= sum * contributors[i].1 < (floors[i] + 1) * 10_000);
    }
    assert(floors =~= floor_shares(contributors, sum));
}

/// Rounded shares always exist, and with any contributor there is a first
/// largest.
pub proof fn law_shares_can_be_rounded(contributors: Seq<(Seq<char>, u32)>, sum: int)
    requires
        0 <= sum,
    ensures
        exists|floors: Seq<int>| are_floors(floors, contributors, sum),
        contributors.len() > 0 ==> exists|first: int| is_largest(contributors, first),
{
    let floors = floor_shares(contributors, sum);
    assert forall|i: int| 0 <= i < floors.len() implies (#[trigger] floors[i]) * 10_000 <= sum
        * contributors[i].1 < (floors[i] + 1) * 10_000 by {
        lemma_floor_share(sum, contributors[i].1);
    }
    assert(are_floors(floors, contributors, sum));
    if contributors.len() > 0 {
        law_largest(contributors);
        assert(is_largest(contributors, largest(contributors)));
    }
}

/// An amount can be divided where there is someone to divide it between, and
/// its products with the fee's and with each share's basis points, and the sum
/// of the rounded shares, can be represented.
pub proof fn law_when_divisible(
    contributors: Seq<(Seq<char>, u32)>,
    amount: int,
    treasury_fee: int,
    floors: Seq<int>,
)
    requires
        0 <= amount,
        treasury_fee * 20 <= amount < (treasury_fee + 1) * 20,
        are_floors(floors, contributors, amount - treasury_fee),
    ensures
        divisible(contributors, amount) <==> {
            &&& contributors.len() > 0
            &&& amount * 500 <= i128::MAX
            &&& forall|i: int|
                0 <= i < contributors.len() ==> (amount - treasury_fee) * (
                #[trigger] contributors[i]).1 <= i128::MAX
            &&& floors.fold_left(0, adding()) <= i128::MAX
        },
        fee(amount) == treasury_fee,
{
    law_fee(amount);
    law_totals(floors, contributors);
    lemma_floors(contributors, amount - treasury_fee, floors);
}

/// What each contributor gets of a divisible amount can be represented.
pub proof fn lemma_divisible_fits(contributors: Seq<(Seq<char>, u32)>, amount: i128, at: int)
    requires
        0 < amount,
        divisible(contributors, amount as int),
        0 <= at < contributors.len(),
    ensures
        payouts(contributors, amount - fee(amount as int)).len() == contributors.len(),
        0 <= payouts(contributors, amount - fee(amount as int))[at] <= i128::MAX,
{
    let sum = amount - fee(amount as int);
    law_fee(amount as int);
    law_largest(contributors);
    let floors = floor_shares(contributors, sum);
    assert forall|i: int| 0 <= i < floors.len() implies 0 <= #[trigger] floors[i] by {
        lemma_floor_share(sum, contributors[i].1);
    }
    lemma_one_of_added(floors, at);
    assert(0 <= floors[at]);
}

} // verus!
