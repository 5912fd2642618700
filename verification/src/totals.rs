//! Sums over sequences of amounts.

use vstd::prelude::*;

verus! {

/// The sum of all amounts in `amounts`.
pub open spec fn sum(amounts: Seq<u64>) -> nat
    decreases amounts.len(),
{
    if amounts.len() == 0 {
        0
    } else {
        sum(amounts.drop_last()) + amounts.last() as nat
    }
}

/// Appending an amount adds it to the sum.
pub proof fn lemma_sum_push(amounts: Seq<u64>, amount: u64)
    ensures
        sum(amounts.push(amount)) == sum(amounts) + amount,
{
    assert(amounts.push(amount).drop_last() =~= amounts);
}

/// The sum of a prefix grows by the element that the prefix gains.
pub proof fn lemma_sum_take_step(amounts: Seq<u64>, i: int)
    requires
        0 <= i < amounts.len(),
    ensures
        sum(amounts.take(i + 1)) == sum(amounts.take(i)) + amounts[i],
{
    assert(amounts.take(i + 1).drop_last() =~= amounts.take(i));
}

/// Replacing one amount changes the sum by the difference.
pub proof fn lemma_sum_update(amounts: Seq<u64>, i: int, amount: u64)
    requires
        0 <= i < amounts.len(),
    ensures
        sum(amounts.update(i, amount)) == sum(amounts) - amounts[i] + amount,
    decreases amounts.len(),
{
    let updated = amounts.update(i, amount);
    if i == amounts.len() - 1 {
        assert(updated.drop_last() =~= amounts.drop_last());
    } else {
        lemma_sum_update(amounts.drop_last(), i, amount);
        assert(updated.drop_last() =~= amounts.drop_last().update(i, amount));
    }
}

/// No single amount exceeds the sum, and a prefix sums to no more than the whole.
pub proof fn lemma_sum_bounds(amounts: Seq<u64>, i: int)
    requires
        0 <= i <= amounts.len(),
    ensures
        sum(amounts.take(i)) <= sum(amounts),
        i < amounts.len() ==> sum(amounts.take(i)) + amounts[i] <= sum(amounts),
    decreases amounts.len() - i,
{
    if i == amounts.len() {
        assert(amounts.take(i) =~= amounts);
    } else {
        lemma_sum_take_step(amounts, i);
        lemma_sum_bounds(amounts, i + 1);
    }
}

} // verus!
