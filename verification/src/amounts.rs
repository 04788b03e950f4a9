//! Sums of amounts, as the contract adds them: left to right in `i128`,
//! failing as soon as a partial sum leaves the `i128` range.
use vstd::prelude::*;

use crate::types::Payment;

verus! {

/// Whether `x` fits in an `i128`.
pub open spec fn fits_i128(x: int) -> bool {
    i128::MIN <= x <= i128::MAX
}

/// The mathematical sum of `s`.
pub open spec fn sum_of(s: Seq<i128>) -> int
    decreases s.len(),
{
    if s.len() == 0 {
        0
    } else {
        sum_of(s.drop_last()) + s.last()
    }
}

/// The sum of `s` computed left to right in `i128`: `None` if some partial sum
/// leaves the `i128` range.
pub open spec fn running_total(s: Seq<i128>) -> Option<int>
    decreases s.len(),
{
    if s.len() == 0 {
        Some(0)
    } else {
        match running_total(s.drop_last()) {
            Some(t) => if fits_i128(t + s.last()) {
                Some(t + s.last())
            } else {
                None
            },
            None => None,
        }
    }
}

/// Every amount in `s` is positive.
pub open spec fn all_positive(s: Seq<i128>) -> bool {
    forall|i: int| 0 <= i < s.len() ==> s[i] > 0
}

/// The amounts of a list of payments.
pub open spec fn payment_amounts(p: Seq<Payment>) -> Seq<i128> {
    p.map_values(|x: Payment| x.amount)
}

/// The total paid by a list of payments.
pub open spec fn paid_total(p: Seq<Payment>) -> int {
    sum_of(payment_amounts(p))
}

/// A running total that exists is the plain sum.
pub proof fn lemma_running_total_is_sum(s: Seq<i128>)
    ensures
        running_total(s) matches Some(t) ==> t == sum_of(s),
    decreases s.len(),
{
    if s.len() > 0 {
        lemma_running_total_is_sum(s.drop_last());
    }
}

/// The running total of positive amounts exists exactly when their sum fits.
pub proof fn lemma_positive_running_total(s: Seq<i128>)
    requires
        all_positive(s),
    ensures
        running_total(s) is Some <==> sum_of(s) <= i128::MAX,
        sum_of(s) >= 0,
    decreases s.len(),
{
    if s.len() > 0 {
        let t = s.drop_last();
        assert(all_positive(t));
        lemma_positive_running_total(t);
        lemma_running_total_is_sum(t);
    }
}

/// Summing a pushed amount adds it to the total.
pub proof fn lemma_sum_push(s: Seq<i128>, x: i128)
    ensures
        sum_of(s.push(x)) == sum_of(s) + x,
{
    assert(s.push(x).drop_last() =~= s);
}

/// Adds up `amounts` left to right; `None` where the contract's addition
/// would overflow.
pub fn checked_total(amounts: &Vec<i128>) -> (total: Option<i128>)
    ensures
        match total {
            Some(t) => running_total(amounts@) == Some(t as int),
            None => running_total(amounts@) is None,
        },
{
    let mut acc: i128 = 0;
    let mut i: usize = 0;
    while i < amounts.len()
        invariant
            i <= amounts.len(),
            running_total(amounts@.take(i as int)) == Some(acc as int),
        decreases amounts.len() - i,
    {
        let ghost prefix = amounts@.take(i as int);
        assert(amounts@.take(i + 1).drop_last() =~= prefix);
        match acc.checked_add(amounts[i]) {
            Some(next) => {
                acc = next;
            },
            None => {
                assert(running_total(amounts@.take(i + 1)) is None);
                proof {
                    lemma_none_extends(amounts@, i + 1);
                }
                return None;
            },
        }
        i = i + 1;
    }
    assert(amounts@.take(i as int) =~= amounts@);
    Some(acc)
}

/// Once a prefix overflows, the whole sequence does.
pub proof fn lemma_none_extends(s: Seq<i128>, k: int)
    requires
        0 <= k <= s.len(),
        running_total(s.take(k)) is None,
    ensures
        running_total(s) is None,
    decreases s.len() - k,
{
    if k == s.len() {
        assert(s.take(k) =~= s);
    } else {
        assert(s.take(k + 1).drop_last() =~= s.take(k));
        lemma_none_extends(s, k + 1);
    }
}

} // verus!
