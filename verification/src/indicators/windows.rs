//! Windows over the newest values, with their sum.

use std::collections::VecDeque;
use vstd::prelude::*;
use crate::base::amount::Amount;
use crate::base::numbers::{divide_wide, truncated_div};

verus! {

/// The sum of amounts, in units.
pub open spec fn total(s: Seq<Amount>) -> int
    decreases s.len(),
{
    if s.len() == 0 {
        0
    } else {
        total(s.drop_last()) + s.last().units
    }
}

/// The average of amounts, in units; zero where there are none.
pub open spec fn mean(s: Seq<Amount>) -> int {
    if s.len() == 0 {
        0
    } else {
        truncated_div(total(s), s.len() as int)
    }
}

/// The lowest of amounts that are not none.
pub open spec fn lowest(s: Seq<Amount>) -> int
    decreases s.len(),
{
    if s.len() <= 1 {
        s[0].units as int
    } else if s.last().units < lowest(s.drop_last()) {
        s.last().units as int
    } else {
        lowest(s.drop_last())
    }
}

/// The highest of amounts that are not none.
pub open spec fn highest(s: Seq<Amount>) -> int
    decreases s.len(),
{
    if s.len() <= 1 {
        s[0].units as int
    } else if s.last().units > highest(s.drop_last()) {
        s.last().units as int
    } else {
        highest(s.drop_last())
    }
}

/// The sum without the first and with one more.
pub proof fn lemma_total_shifted(s: Seq<Amount>, x: Amount)
    requires
        s.len() > 0,
    ensures
        total(s.skip(1)) == total(s) - s[0].units,
        total(s.skip(1).push(x)) == total(s) - s[0].units + x.units,
    decreases s.len(),
{
    assert(s.skip(1).push(x).drop_last() =~= s.skip(1));
    if s.len() == 1 {
        assert(s.skip(1) =~= Seq::empty());
        assert(s.drop_last() =~= Seq::empty());
    } else {
        lemma_total_shifted(s.drop_last(), x);
        assert(s.drop_last().skip(1) =~= s.skip(1).drop_last());
    }
}

/// The sum of `n` amounts is at most `n` times the largest.
pub proof fn lemma_total_bounds(s: Seq<Amount>)
    ensures
        s.len() * i64::MIN <= total(s) <= s.len() * i64::MAX,
    decreases s.len(),
{
    if s.len() > 0 {
        lemma_total_bounds(s.drop_last());
        let n = s.len() as int;
        assert((n - 1) * i64::MIN + i64::MIN == n * i64::MIN) by (nonlinear_arith);
        assert((n - 1) * i64::MAX + i64::MAX == n * i64::MAX) by (nonlinear_arith);
    }
}

/// The average of amounts between two bounds lies between them as well.
pub proof fn law_mean_between(s: Seq<Amount>, low: i64, high: i64)
    requires
        s.len() > 0,
        forall|i: int| 0 <= i < s.len() ==> low <= (#[trigger] s[i]).units <= high,
    ensures
        low <= mean(s) <= high,
{
    lemma_total_between(s, low, high);
    let n = s.len() as int;
    let t = total(s);
    let a = low as int;
    let b = high as int;
    if t >= 0 {
        assert(a <= t / n <= b) by (nonlinear_arith)
            requires
                n * a <= t <= n * b,
                n > 0,
        ;
    } else {
        let m = -t;
        assert(-b <= m / n <= -a) by (nonlinear_arith)
            requires
                n * a <= -m <= n * b,
                n > 0,
        ;
    }
}

proof fn lemma_total_between(s: Seq<Amount>, low: i64, high: i64)
    requires
        forall|i: int| 0 <= i < s.len() ==> low <= (#[trigger] s[i]).units <= high,
    ensures
        s.len() * low <= total(s) <= s.len() * high,
    decreases s.len(),
{
    if s.len() > 0 {
        let t = s.drop_last();
        assert forall|i: int| 0 <= i < t.len() implies low <= (#[trigger] t[i]).units <= high by {
            assert(t[i] == s[i]);
        }
        lemma_total_between(t, low, high);
        assert(low <= s[s.len() - 1].units <= high);
        let n = s.len() as int;
        assert((n - 1) * low + low == n * low) by (nonlinear_arith);
        assert((n - 1) * high + high == n * high) by (nonlinear_arith);
    } else {
        assert(0 * low == 0 && 0 * high == 0) by (nonlinear_arith);
    }
}

/// Nothing is lower than the lowest, and nothing is higher than the highest.
pub proof fn lemma_extremes(s: Seq<Amount>)
    requires
        s.len() > 0,
    ensures
        forall|i: int| 0 <= i < s.len() ==> lowest(s) <= (#[trigger] s[i]).units <= highest(s),
        exists|i: int| 0 <= i < s.len() && (#[trigger] s[i]).units == lowest(s),
        exists|i: int| 0 <= i < s.len() && (#[trigger] s[i]).units == highest(s),
    decreases s.len(),
{
    if s.len() == 1 {
        assert(s[0].units == lowest(s) && s[0].units == highest(s));
    } else {
        let t = s.drop_last();
        lemma_extremes(t);
        let a = choose|i: int| 0 <= i < t.len() && (#[trigger] t[i]).units == lowest(t);
        let b = choose|i: int| 0 <= i < t.len() && (#[trigger] t[i]).units == highest(t);
        assert(s[a] == t[a] && s[b] == t[b]);
        assert(s[s.len() - 1] == s.last());
        assert forall|i: int| 0 <= i < s.len() implies lowest(s) <= (#[trigger] s[i]).units
            <= highest(s) by {
            if i < t.len() {
                assert(t[i] == s[i]);
            }
        }
    }
}

/// The average of amounts whose sum is known.
pub fn mean_of(sum: i128, count: usize) -> (r: Amount)
    requires
        count > 0,
        count * i64::MIN <= sum <= count * i64::MAX,
    ensures
        r.units == truncated_div(sum as int, count as int),
{
    proof {
        let t = sum as int;
        let n = count as int;
        assert(n * i64::MIN > i128::MIN) by (nonlinear_arith)
            requires
                0 < n <= 0xffff_ffff_ffff_ffff,
        ;
        if t >= 0 {
            assert(0 <= t / n <= i64::MAX) by (nonlinear_arith)
                requires
                    0 <= t <= n * i64::MAX,
                    n > 0,
            ;
        } else {
            let m = -t;
            assert(0 <= m / n <= 0x8000_0000_0000_0000) by (nonlinear_arith)
                requires
                    0 <= m <= n * 0x8000_0000_0000_0000,
                    n > 0,
            ;
        }
    }
    Amount { units: divide_wide(sum, count as u128) as i64 }
}

/// The last `N` values; zeros stand for values that are still missing.
pub struct RollingWindow<const N: usize> {
    /// Oldest first.
    pub data: VecDeque<Amount>,
    /// The sum of the values, in units.
    pub sum: i128,
}

impl<const N: usize> RollingWindow<N> {
    /// The window is full, and its sum is right.
    pub open spec fn wf(&self) -> bool {
        &&& self.data@.len() == N
        &&& N > 0
        &&& self.sum == total(self.data@)
    }

    /// Whether all values are zero.
    pub open spec fn is_blank(&self) -> bool {
        forall|i: int| 0 <= i < N ==> (#[trigger] self.data@[i]).units == 0
    }

    /// A window of zeros.
    pub fn new() -> (w: Self)
        requires
            N > 0,
        ensures
            w.wf(),
            w.is_blank(),
    {
        let mut data: VecDeque<Amount> = VecDeque::new();
        let mut i: usize = 0;
        while i < N
            invariant
                i <= N,
                data@.len() == i,
                total(data@) == 0,
                forall|j: int| 0 <= j < i ==> (#[trigger] data@[j]).units == 0,
            decreases N - i,
        {
            let ghost before = data@;
            data.push_back(Amount::zero());
            assert(data@.drop_last() =~= before);
            i += 1;
        }
        RollingWindow { data, sum: 0 }
    }

    /// Takes in a value; the oldest one leaves.
    pub fn push(&mut self, value: Amount)
        requires
            old(self).wf(),
        ensures
            final(self).wf(),
            final(self).data@ == old(self).data@.skip(1).push(value),
    {
        proof {
            lemma_total_shifted(self.data@, value);
            lemma_total_bounds(self.data@.skip(1));
            lemma_total_bounds(self.data@.skip(1).push(value));
            let n = N as int;
            assert(n * i64::MIN > i128::MIN && n * i64::MAX < i128::MAX && (n - 1) * i64::MIN
                > i128::MIN && (n - 1) * i64::MAX < i128::MAX) by (nonlinear_arith)
                requires
                    0 < n <= 0xffff_ffff_ffff_ffff,
            ;
        }
        if let Some(oldest) = self.data.pop_front() {
            self.sum = self.sum - oldest.units as i128;
        }
        self.data.push_back(value);
        self.sum = self.sum + value.units as i128;
        assert(self.data@ =~= old(self).data@.skip(1).push(value));
    }

    /// The value at an index: the oldest at zero, the newest at one, and so on
    /// back in time.
    pub fn get(&self, index: usize) -> (r: Option<Amount>)
        requires
            self.wf(),
        ensures
            r == (if index >= N {
                None
            } else if index == 0 {
                Some(self.data@[0])
            } else {
                Some(self.data@[N - index])
            }),
    {
        if index >= N {
            return None;
        }
        if index == 0 {
            Some(self.data[0])
        } else {
            Some(self.data[N - index])
        }
    }

    /// The sum of the values, in units.
    pub fn sum(&self) -> (r: i128)
        requires
            self.wf(),
        ensures
            r == total(self.data@),
    {
        self.sum
    }

    /// The average of the values.
    pub fn avg(&self) -> (r: Amount)
        requires
            self.wf(),
        ensures
            r.units == mean(self.data@),
    {
        proof {
            lemma_total_bounds(self.data@);
        }
        mean_of(self.sum, N)
    }

    /// The lowest value.
    pub fn min(&self) -> (r: Amount)
        requires
            self.wf(),
        ensures
            r.units == lowest(self.data@),
    {
        let ghost s = self.data@;
        let mut m: i64 = self.data[0].units;
        let mut i: usize = 1;
        assert(s.take(1)[0] == s[0]);
        while i < self.data.len()
            invariant
                1 <= i <= s.len(),
                s == self.data@,
                m == lowest(s.take(i as int)),
            decreases s.len() - i,
        {
            assert(s.take(i + 1).drop_last() =~= s.take(i as int));
            assert(s.take(i + 1).last() == s[i as int]);
            if self.data[i].units < m {
                m = self.data[i].units;
            }
            i += 1;
        }
        assert(s.take(s.len() as int) =~= s);
        Amount { units: m }
    }

    /// The highest value.
    pub fn max(&self) -> (r: Amount)
        requires
            self.wf(),
        ensures
            r.units == highest(self.data@),
    {
        let ghost s = self.data@;
        let mut m: i64 = self.data[0].units;
        let mut i: usize = 1;
        assert(s.take(1)[0] == s[0]);
        while i < self.data.len()
            invariant
                1 <= i <= s.len(),
                s == self.data@,
                m == highest(s.take(i as int)),
            decreases s.len() - i,
        {
            assert(s.take(i + 1).drop_last() =~= s.take(i as int));
            assert(s.take(i + 1).last() == s[i as int]);
            if self.data[i].units > m {
                m = self.data[i].units;
            }
            i += 1;
        }
        assert(s.take(s.len() as int) =~= s);
        Amount { units: m }
    }
}

} // verus!
