//! Element-wise work on prices.

use vstd::prelude::*;
use crate::base::amount::Amount;
use crate::indicators::windows::{lemma_total_bounds, total};

verus! {

/// Which prices of the first side are lower than those of the second.
pub fn compare_prices_avx2(prices_a: &[Amount], prices_b: &[Amount]) -> (r: Vec<bool>)
    requires
        prices_a@.len() == prices_b@.len(),
    ensures
        r@ == Seq::new(
            prices_a@.len(),
            |i: int| prices_a@[i].units < prices_b@[i].units,
        ),
{
    let mut results: Vec<bool> = Vec::new();
    let mut i: usize = 0;
    while i < prices_a.len()
        invariant
            i <= prices_a@.len(),
            prices_a@.len() == prices_b@.len(),
            results@ == Seq::new(i as nat, |k: int| prices_a@[k].units < prices_b@[k].units),
        decreases prices_a@.len() - i,
    {
        results.push(prices_a[i].units < prices_b[i].units);
        i += 1;
        assert(results@ =~= Seq::new(
            i as nat,
            |k: int| prices_a@[k].units < prices_b@[k].units,
        ));
    }
    results
}

/// The sum of values, in units.
pub fn sum_f64_avx2(values: &[Amount]) -> (r: i128)
    ensures
        r == total(values@),
{
    let n: usize = values.len();
    let mut sum: i128 = 0;
    let mut i: usize = 0;
    assert(values@.take(0) =~= Seq::empty());
    while i < n
        invariant
            i <= n,
            n == values@.len(),
            sum == total(values@.take(i as int)),
        decreases n - i,
    {
        proof {
            assert(values@.take(i + 1).drop_last() =~= values@.take(i as int));
            assert(values@.take(i + 1).last() == values@[i as int]);
            lemma_total_bounds(values@.take(i + 1));
            let k = i + 1;
            assert(k * i64::MIN > i128::MIN && k * i64::MAX < i128::MAX) by (nonlinear_arith)
                requires
                    0 <= k <= 0xffff_ffff_ffff_ffff,
            ;
        }
        sum = sum + values[i].units as i128;
        i += 1;
    }
    assert(values@.take(n as int) =~= values@);
    sum
}

} // verus!
