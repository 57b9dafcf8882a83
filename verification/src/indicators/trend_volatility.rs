//! Averages, bands, ranges and directions of prices. All numbers have eight
//! decimal places, and each step is cut off behind them.

use std::collections::VecDeque;
use vstd::prelude::*;
use crate::base::amount::{distance, Amount};
use crate::base::numbers::{
    divide_wide, is_root, larger, lemma_root_unique, product, product_of, ratio, ratio_of, root,
    saturate, saturated, truncated_div,
};
use crate::base::sequences::newest;
use crate::indicators::oscillators::{move_towards, moved, HUNDRED};
use crate::indicators::windows::{
    highest, lemma_extremes, lemma_total_bounds, lemma_total_shifted, lowest, mean, mean_of, total,
};

verus! {

/// Exponential moving average.
#[derive(Debug, Clone, Copy, PartialEq, Eq, Structural)]
pub struct EMA {
    pub value: Amount,
    pub period: usize,
    pub initialized: bool,
}

impl EMA {
    /// The average after a price; the first price starts it.
    pub open spec fn value_after(self, price: Amount) -> int {
        if self.initialized {
            moved(self.value.units as int, price.units as int, self.period)
        } else {
            price.units as int
        }
    }

    /// No price yet.
    pub fn new(period: usize) -> (e: Self)
        ensures
            e == (EMA { value: Amount { units: 0 }, period, initialized: false }),
    {
        EMA { value: Amount::zero(), period, initialized: false }
    }

    /// Takes in a price, and gives the average.
    pub fn update(&mut self, price: Amount) -> (r: Amount)
        ensures
            r.units == old(self).value_after(price),
            *final(self) == (EMA { value: r, initialized: true, ..*old(self) }),
    {
        if self.initialized {
            self.value = move_towards(self.value, price, self.period);
        } else {
            self.initialized = true;
            self.value = price;
        }
        self.value
    }

    /// The average.
    pub fn value(&self) -> (r: Amount)
        ensures
            r == self.value,
    {
        self.value
    }
}

/// The average of the last `N` values.
pub struct SMA<const N: usize> {
    /// Oldest first.
    pub buffer: VecDeque<Amount>,
    /// The sum of the values, in units.
    pub sum: i128,
}

impl<const N: usize> SMA<N> {
    /// No more values are kept than wanted, and their sum is right.
    pub open spec fn wf(&self) -> bool {
        &&& self.buffer@.len() <= N
        &&& N > 0
        &&& self.sum == total(self.buffer@)
    }

    /// No value yet.
    pub fn new() -> (s: Self)
        requires
            N > 0,
        ensures
            s.wf(),
            s.buffer@.len() == 0,
    {
        SMA { buffer: VecDeque::new(), sum: 0 }
    }

    /// Takes in a value, and gives the average.
    pub fn update(&mut self, value: Amount) -> (r: Amount)
        requires
            old(self).wf(),
        ensures
            final(self).wf(),
            final(self).buffer@ == newest(old(self).buffer@.push(value), N as nat),
            r.units == mean(final(self).buffer@),
    {
        let ghost before = self.buffer@;
        proof {
            let n = N as int;
            assert(n * i64::MIN > i128::MIN && n * i64::MAX < i128::MAX) by (nonlinear_arith)
                requires
                    0 < n <= 0xffff_ffff_ffff_ffff,
            ;
        }
        if self.buffer.len() >= N {
            proof {
                lemma_total_shifted(self.buffer@, value);
                lemma_total_bounds(self.buffer@.skip(1));
                let n = N as int;
                assert((n - 1) * i64::MIN > i128::MIN && (n - 1) * i64::MAX < i128::MAX)
                    by (nonlinear_arith)
                    requires
                        0 < n <= 0xffff_ffff_ffff_ffff,
                ;
            }
            if let Some(oldest) = self.buffer.pop_front() {
                self.sum = self.sum - oldest.units as i128;
            }
            assert(self.buffer@ =~= before.skip(1));
        }
        let ghost kept = self.buffer@;
        self.buffer.push_back(value);
        proof {
            assert(self.buffer@.drop_last() =~= kept);
            lemma_total_bounds(self.buffer@);
            lemma_count_bounds(self.buffer@.len(), N as nat);
        }
        self.sum = self.sum + value.units as i128;
        assert(self.buffer@ =~= newest(before.push(value), N as nat));
        mean_of(self.sum, self.buffer.len())
    }

    /// The average; zero without a value.
    pub fn value(&self) -> (r: Amount)
        requires
            self.wf(),
        ensures
            r.units == mean(self.buffer@),
    {
        if self.buffer.len() == 0 {
            return Amount::zero();
        }
        proof {
            lemma_total_bounds(self.buffer@);
        }
        mean_of(self.sum, self.buffer.len())
    }
}

proof fn lemma_count_bounds(count: nat, max: nat)
    requires
        count <= max <= 0xffff_ffff_ffff_ffff,
    ensures
        count * i64::MIN > i128::MIN,
        count * i64::MAX < i128::MAX,
{
    assert(count * i64::MIN > i128::MIN && count * i64::MAX < i128::MAX) by (nonlinear_arith)
        requires
            0 <= count <= 0xffff_ffff_ffff_ffff,
    ;
}

/// The squared deviation after one more: the newest counts one twentieth.
pub open spec fn variance_after(variance: int, deviation: int) -> int {
    truncated_div(variance * 19 + product(deviation, deviation), 20)
}

/// Whether `r` is the square root of `variance`, cut off behind eight decimal
/// places.
pub open spec fn is_deviation(r: int, variance: int) -> bool {
    is_root(r, variance * 100_000_000)
}

/// Bollinger bands over `N` prices.
pub struct BollingerBands<const N: usize> {
    pub sma: SMA<N>,
    pub sum_sq: Amount,
    pub upper: Amount,
    pub lower: Amount,
    pub bandwidth: Amount,
    /// How many standard deviations the bands stand off.
    pub std_mult: Amount,
}

impl<const N: usize> BollingerBands<N> {
    /// The average is sound, and the variance is not negative.
    pub open spec fn wf(&self) -> bool {
        self.sma.wf() && self.sum_sq.units >= 0
    }

    /// No price yet.
    pub fn new(std_mult: Amount) -> (b: Self)
        requires
            N > 0,
        ensures
            b.wf(),
            b.sma.buffer@.len() == 0,
            b.sum_sq.units == 0,
            b.upper.units == 0,
            b.lower.units == 0,
            b.bandwidth.units == 0,
            b.std_mult == std_mult,
    {
        BollingerBands {
            sma: SMA::new(),
            sum_sq: Amount::zero(),
            upper: Amount::zero(),
            lower: Amount::zero(),
            bandwidth: Amount::zero(),
            std_mult,
        }
    }

    /// Whether these are the bands after a price came, and `r` the upper one, the
    /// average and the lower one.
    pub open spec fn follows(
        &self,
        before: Self,
        price: Amount,
        r: (Amount, Amount, Amount),
    ) -> bool {
        &&& self.sma.buffer@ == newest(before.sma.buffer@.push(price), N as nat)
        &&& r.1.units == mean(self.sma.buffer@)
        &&& self.sum_sq.units == variance_after(
            before.sum_sq.units as int,
            saturated(price.units - r.1.units),
        )
        &&& exists|d: i64| #[trigger]
            is_deviation(d as int, self.sum_sq.units as int) && r.0.units == saturated(
                r.1.units + product(before.std_mult.units as int, d as int),
            ) && r.2.units == saturated(
                r.1.units - product(before.std_mult.units as int, d as int),
            )
        &&& self.upper == r.0
        &&& self.lower == r.2
        &&& self.bandwidth.units == (if r.1.units == 0 {
            0
        } else {
            ratio(r.0.units - r.2.units, r.1.units as int)
        })
        &&& self.std_mult == before.std_mult
    }

    /// Takes in a price, and gives the upper band, the average and the lower
    /// band.
    pub fn update(&mut self, price: Amount) -> (r: (Amount, Amount, Amount))
        requires
            old(self).wf(),
        ensures
            final(self).wf(),
            final(self).follows(*old(self), price, r),
    {
        let average = self.sma.update(price);
        let deviation: i64 = saturate(price.units as i128 - average.units as i128);
        let square: i64 = product_of(deviation, deviation);
        proof {
            let d = deviation as int;
            assert(d * d >= 0) by (nonlinear_arith);
        }
        let weighed: i128 = self.sum_sq.units as i128 * 19 + square as i128;
        self.sum_sq = Amount { units: divide_wide(weighed, 20) as i64 };
        let wide: u128 = self.sum_sq.units as u128 * 100_000_000;
        let r: u64 = root(wide);
        proof {
            let x = r as int;
            assert(x <= i64::MAX) by (nonlinear_arith)
                requires
                    x * x <= 0x7fff_ffff_ffff_ffff * 100_000_000,
                    x >= 0,
            ;
        }
        let std_dev: i64 = r as i64;
        assert(is_deviation(std_dev as int, self.sum_sq.units as int));
        let off: i64 = product_of(self.std_mult.units, std_dev);
        let upper = Amount { units: saturate(average.units as i128 + off as i128) };
        let lower = Amount { units: saturate(average.units as i128 - off as i128) };
        let width: i64 = if average.units == 0 {
            0
        } else {
            ratio_of(upper.units as i128 - lower.units as i128, average.units as i128)
        };
        self.upper = upper;
        self.lower = lower;
        self.bandwidth = Amount { units: width };
        assert(is_deviation(std_dev as int, self.sum_sq.units as int) && upper.units == saturated(
            average.units + product(self.std_mult.units as int, std_dev as int),
        ) && lower.units == saturated(
            average.units - product(self.std_mult.units as int, std_dev as int),
        ));
        (upper, average, lower)
    }

    /// The upper band, the average and the lower band.
    pub fn bands(&self) -> (r: (Amount, Amount, Amount))
        requires
            self.wf(),
        ensures
            r.0 == self.upper,
            r.1.units == mean(self.sma.buffer@),
            r.2 == self.lower,
    {
        (self.upper, self.sma.value(), self.lower)
    }

    /// The distance of the bands as a part of the average.
    pub fn bandwidth(&self) -> (r: Amount)
        ensures
            r == self.bandwidth,
    {
        self.bandwidth
    }
}

/// Bands that stand off by a multiple that is not negative enclose the average.
pub proof fn law_bands_enclose_average(average: int, std_mult: int, deviation: int)
    requires
        i64::MIN <= average <= i64::MAX,
        std_mult >= 0,
        deviation >= 0,
    ensures
        saturated(average - product(std_mult, deviation)) <= average <= saturated(
            average + product(std_mult, deviation),
        ),
{
    assert((std_mult * deviation) / 100_000_000 >= 0) by (nonlinear_arith)
        requires
            std_mult >= 0,
            deviation >= 0,
    ;
    assert(std_mult * deviation >= 0) by (nonlinear_arith)
        requires
            std_mult >= 0,
            deviation >= 0,
    ;
}

/// There is only one standard deviation.
pub proof fn law_deviation_unique(a: int, b: int, variance: int)
    requires
        is_deviation(a, variance),
        is_deviation(b, variance),
    ensures
        a == b,
{
    lemma_root_unique(a, b, variance * 100_000_000);
}

/// The range of a bar together with the gap to the close before it.
pub open spec fn true_range(high: Amount, low: Amount, prev: Option<Amount>) -> int {
    let span = high.units - low.units;
    saturated(
        match prev {
            None => span,
            Some(p) => larger(
                larger(span, distance(high.units as int, p.units as int)),
                distance(low.units as int, p.units as int),
            ),
        },
    )
}

/// An average in which the newest value counts one `period`-th.
pub open spec fn averaged(average: int, value: int, period: usize) -> int {
    truncated_div(average * (period - 1) + value, period as int)
}

fn average_in(average: Amount, value: Amount, period: usize) -> (r: Amount)
    requires
        period > 0,
    ensures
        r.units == averaged(average.units as int, value.units as int, period),
{
    let ghost a = average.units as int;
    let ghost v = value.units as int;
    let ghost n = period as int;
    proof {
        assert(i128::MIN < a * (n - 1) <= i128::MAX && i128::MIN < a * (n - 1) + v <= i128::MAX)
            by (nonlinear_arith)
            requires
                -0x8000_0000_0000_0000 <= a <= 0x7fff_ffff_ffff_ffff,
                -0x8000_0000_0000_0000 <= v <= 0x7fff_ffff_ffff_ffff,
                0 < n <= 0xffff_ffff_ffff_ffff,
        ;
        assert(n * i64::MIN <= a * (n - 1) + v <= n * i64::MAX) by (nonlinear_arith)
            requires
                i64::MIN <= a <= i64::MAX,
                i64::MIN <= v <= i64::MAX,
                n > 0,
        ;
    }
    mean_of(average.units as i128 * (period as i128 - 1) + value.units as i128, period)
}

/// Average true range.
#[derive(Debug, Clone, Copy, PartialEq, Eq, Structural)]
pub struct ATR {
    pub atr_value: Amount,
    pub prev_close: Amount,
    pub period: usize,
    pub initialized: bool,
}

impl ATR {
    /// The range of the next bar.
    pub open spec fn range_of(self, high: Amount, low: Amount) -> int {
        true_range(
            high,
            low,
            if self.initialized {
                Some(self.prev_close)
            } else {
                None
            },
        )
    }

    /// The average after a bar; a range starts an average of zero anew.
    pub open spec fn value_after(self, high: Amount, low: Amount) -> int {
        if self.atr_value.units == 0 {
            self.range_of(high, low)
        } else {
            averaged(self.atr_value.units as int, self.range_of(high, low), self.period)
        }
    }

    /// No bar yet.
    pub fn new(period: usize) -> (a: Self)
        requires
            period > 0,
        ensures
            a == (ATR {
                atr_value: Amount { units: 0 },
                prev_close: Amount { units: 0 },
                period,
                initialized: false,
            }),
    {
        ATR { atr_value: Amount::zero(), prev_close: Amount::zero(), period, initialized: false }
    }

    /// Takes in a bar, and gives the average.
    pub fn update(&mut self, high: Amount, low: Amount, close: Amount) -> (r: Amount)
        requires
            old(self).period > 0,
        ensures
            r.units == old(self).value_after(high, low),
            *final(self) == (ATR {
                atr_value: r,
                prev_close: close,
                initialized: true,
                ..*old(self)
            }),
    {
        let prev: i128 = self.prev_close.units as i128;
        let h: i128 = high.units as i128;
        let l: i128 = low.units as i128;
        let mut range: i128 = h - l;
        if self.initialized {
            let up: i128 = if h >= prev { h - prev } else { prev - h };
            let down: i128 = if l >= prev { l - prev } else { prev - l };
            if up > range {
                range = up;
            }
            if down > range {
                range = down;
            }
        }
        self.initialized = true;
        self.prev_close = close;
        let true_range = Amount { units: saturate(range) };
        self.atr_value = if self.atr_value.units == 0 {
            true_range
        } else {
            average_in(self.atr_value, true_range, self.period)
        };
        self.atr_value
    }

    /// The average.
    pub fn value(&self) -> (r: Amount)
        ensures
            r == self.atr_value,
    {
        self.atr_value
    }
}

/// Of a bar whose high is not below its low, the range is not negative.
pub proof fn law_range_not_negative(high: Amount, low: Amount, prev: Option<Amount>)
    requires
        low.units <= high.units,
    ensures
        true_range(high, low, prev) >= 0,
        true_range(high, low, prev) >= saturated(high.units - low.units),
{
}

/// How far a bar moved up, where it did so more than down.
pub open spec fn directional(up: int, down: int) -> int {
    if up > down && up > 0 {
        saturated(up)
    } else {
        0
    }
}

/// A sum that loses one `period`-th of itself and gains a value.
pub open spec fn running(sum: int, value: int, period: usize) -> int {
    saturated(sum - truncated_div(sum, period as int) + value)
}

fn run_on(sum: Amount, value: i64, period: usize) -> (r: Amount)
    requires
        period > 0,
    ensures
        r.units == running(sum.units as int, value as int, period),
{
    let s: i128 = sum.units as i128;
    Amount { units: saturate(s - divide_wide(s, period as u128) + value as i128) }
}

/// A part in percent.
pub open spec fn percentage(part: int, whole: int) -> int {
    saturated(truncated_div(part * HUNDRED, whole))
}

fn percent_of(part: i128, whole: u128) -> (r: Amount)
    requires
        whole > 0,
        -0x1_0000_0000_0000_0000 <= part <= 0x1_0000_0000_0000_0000,
    ensures
        r.units == percentage(part as int, whole as int),
{
    Amount { units: saturate(divide_wide(part * 10_000_000_000, whole)) }
}

/// Average directional index.
#[derive(Debug, Clone, Copy, PartialEq, Eq, Structural)]
pub struct ADX {
    pub plus_dm: Amount,
    pub minus_dm: Amount,
    pub plus_di: Amount,
    pub minus_di: Amount,
    pub dx: Amount,
    pub adx_value: Amount,
    pub atr: ATR,
    pub period: usize,
    pub sample_count: usize,
}

impl ADX {
    /// The period is not zero.
    pub open spec fn wf(&self) -> bool {
        self.period > 0 && self.atr.period > 0
    }

    /// The movements after a bar.
    pub open spec fn moves_after(
        self,
        high: Amount,
        low: Amount,
        prev_high: Amount,
        prev_low: Amount,
    ) -> (int, int) {
        let up = high.units - prev_high.units;
        let down = prev_low.units - low.units;
        (
            running(self.plus_dm.units as int, directional(up, down), self.period),
            running(self.minus_dm.units as int, directional(down, up), self.period),
        )
    }

    /// The directions for movements, given the average range.
    pub open spec fn directions(moves: (int, int), range: int) -> (int, int) {
        (percentage(moves.0, range), percentage(moves.1, range))
    }

    /// How far the directions differ, in percent of their sum.
    pub open spec fn difference(di: (int, int)) -> int {
        if di.0 + di.1 > 0 {
            percentage(distance(di.0, di.1), di.0 + di.1)
        } else {
            0
        }
    }

    /// The index after a difference: the mean of the first `period` of them;
    /// later ones count one `period`-th.
    pub open spec fn index_after(self, dx: int) -> int {
        if self.sample_count < self.period {
            averaged(self.adx_value.units as int, dx, (self.sample_count + 1) as usize)
        } else {
            averaged(self.adx_value.units as int, dx, self.period)
        }
    }

    /// No bar yet.
    pub fn new(period: usize) -> (a: Self)
        requires
            period > 0,
        ensures
            a.wf(),
            a.plus_dm.units == 0,
            a.minus_dm.units == 0,
            a.plus_di.units == 0,
            a.minus_di.units == 0,
            a.dx.units == 0,
            a.adx_value.units == 0,
            a.period == period,
            a.sample_count == 0,
            a.atr == (ATR {
                atr_value: Amount { units: 0 },
                prev_close: Amount { units: 0 },
                period,
                initialized: false,
            }),
    {
        ADX {
            plus_dm: Amount::zero(),
            minus_dm: Amount::zero(),
            plus_di: Amount::zero(),
            minus_di: Amount::zero(),
            dx: Amount::zero(),
            adx_value: Amount::zero(),
            atr: ATR::new(period),
            period,
            sample_count: 0,
        }
    }

    /// Takes in a bar and the high and low of the one before it, and gives the
    /// index. Without a range the index stays.
    pub fn update(
        &mut self,
        high: Amount,
        low: Amount,
        close: Amount,
        prev_high: Amount,
        prev_low: Amount,
    ) -> (r: Amount)
        requires
            old(self).wf(),
        ensures
            final(self).wf(),
            final(self).period == old(self).period,
            final(self).atr == (ATR {
                atr_value: Amount { units: old(self).atr.value_after(high, low) as i64 },
                prev_close: close,
                initialized: true,
                ..old(self).atr
            }),
            (final(self).plus_dm.units as int, final(self).minus_dm.units as int) == old(
                self,
            ).moves_after(high, low, prev_high, prev_low),
            r == final(self).adx_value,
            ({
                let range = old(self).atr.value_after(high, low);
                let moves = old(self).moves_after(high, low, prev_high, prev_low);
                let di = Self::directions(moves, range);
                if range > 0 {
                    &&& (final(self).plus_di.units as int, final(self).minus_di.units as int) == di
                    &&& final(self).dx.units == Self::difference(di)
                    &&& final(self).sample_count == old(self).sample_count.wrapping_add(1)
                    &&& r.units == old(self).index_after(Self::difference(di))
                } else {
                    &&& final(self).plus_di == old(self).plus_di
                    &&& final(self).minus_di == old(self).minus_di
                    &&& final(self).dx == old(self).dx
                    &&& final(self).sample_count == old(self).sample_count
                    &&& r == old(self).adx_value
                }
            }),
    {
        let range: i64 = self.atr.update(high, low, close).units;
        let up: i128 = high.units as i128 - prev_high.units as i128;
        let down: i128 = prev_low.units as i128 - low.units as i128;
        let plus: i64 = if up > down && up > 0 { saturate(up) } else { 0 };
        let minus: i64 = if down > up && down > 0 { saturate(down) } else { 0 };
        self.plus_dm = run_on(self.plus_dm, plus, self.period);
        self.minus_dm = run_on(self.minus_dm, minus, self.period);
        if range > 0 {
            self.plus_di = percent_of(self.plus_dm.units as i128, range as u128);
            self.minus_di = percent_of(self.minus_dm.units as i128, range as u128);
            let p: i128 = self.plus_di.units as i128;
            let m: i128 = self.minus_di.units as i128;
            self.dx = if p + m > 0 {
                percent_of(if p >= m { p - m } else { m - p }, (p + m) as u128)
            } else {
                Amount::zero()
            };
            let count: usize = self.sample_count;
            self.sample_count = count.wrapping_add(1);
            self.adx_value = if count < self.period {
                average_in(self.adx_value, self.dx, count + 1)
            } else {
                average_in(self.adx_value, self.dx, self.period)
            };
        }
        self.adx_value
    }

    /// The index.
    pub fn value(&self) -> (r: Amount)
        ensures
            r == self.adx_value,
    {
        self.adx_value
    }

    /// The directions up and down.
    pub fn di_values(&self) -> (r: (Amount, Amount))
        ensures
            r == (self.plus_di, self.minus_di),
    {
        (self.plus_di, self.minus_di)
    }
}

/// Differences between zero and one hundred keep the index between zero and one
/// hundred.
pub proof fn law_index_bounded(adx: ADX, dx: int)
    requires
        adx.wf(),
        0 <= adx.adx_value.units <= HUNDRED,
        0 <= dx <= HUNDRED,
    ensures
        0 <= adx.index_after(dx) <= HUNDRED,
{
    let a = adx.adx_value.units as int;
    let n = if adx.sample_count < adx.period {
        adx.sample_count + 1
    } else {
        adx.period as int
    };
    assert(0 <= a * (n - 1) <= 10_000_000_000 * (n - 1)) by (nonlinear_arith)
        requires
            0 <= a <= 10_000_000_000,
            n >= 1,
    ;
    let s = a * (n - 1) + dx;
    assert(0 <= s / n <= 10_000_000_000) by (nonlinear_arith)
        requires
            0 <= s <= 10_000_000_000 * n,
            n >= 1,
    ;
}

/// Of directions that are not negative, the difference lies between zero and one
/// hundred.
pub proof fn law_difference_bounded(di: (int, int))
    requires
        di.0 >= 0,
        di.1 >= 0,
    ensures
        0 <= ADX::difference(di) <= HUNDRED,
{
    let d = distance(di.0, di.1);
    let s = di.0 + di.1;
    if s > 0 {
        assert(0 <= (d * 10_000_000_000) / s <= 10_000_000_000) by (nonlinear_arith)
            requires
                0 <= d <= s,
                s > 0,
        ;
    }
}

/// The lines of an Ichimoku cloud.
#[derive(Debug, Clone, Copy, PartialEq, Eq, Structural)]
pub struct IchimokuValues {
    pub tenkan: Amount,
    pub kijun: Amount,
    pub senkou_a: Amount,
    pub senkou_b: Amount,
    pub chikou: Amount,
}

/// A bar.
#[derive(Debug, Clone, Copy, PartialEq, Eq, Structural)]
pub struct Bar {
    pub high: Amount,
    pub low: Amount,
    pub close: Amount,
}

/// The highs of bars.
pub open spec fn highs(s: Seq<Bar>) -> Seq<Amount> {
    Seq::new(s.len(), |i: int| s[i].high)
}

/// The lows of bars.
pub open spec fn lows(s: Seq<Bar>) -> Seq<Amount> {
    Seq::new(s.len(), |i: int| s[i].low)
}

/// The middle between the highest high and the lowest low of bars; zero where
/// there are none.
pub open spec fn midpoint(s: Seq<Bar>) -> int {
    if s.len() == 0 {
        0
    } else {
        truncated_div(highest(highs(s)) + lowest(lows(s)), 2)
    }
}

/// The largest of four numbers.
pub open spec fn largest(a: usize, b: usize, c: usize, d: usize) -> usize {
    larger(larger(a as int, b as int), larger(c as int, d as int)) as usize
}

/// Ichimoku cloud.
pub struct IchimokuCloud {
    pub tenkan_period: usize,
    pub kijun_period: usize,
    pub senkou_b_period: usize,
    pub displacement: usize,
    /// Bars, oldest first.
    pub bars: VecDeque<Bar>,
    /// How many bars are kept.
    pub capacity: usize,
}

impl IchimokuCloud {
    /// As many bars are kept as the longest period needs.
    pub open spec fn wf(&self) -> bool {
        &&& self.capacity == largest(
            self.tenkan_period,
            self.kijun_period,
            self.senkou_b_period,
            self.displacement,
        )
        &&& self.capacity > 0
        &&& self.bars@.len() <= self.capacity
    }

    /// No bar yet.
    pub fn new(tenkan: usize, kijun: usize, senkou_b: usize, displacement: usize) -> (c: Self)
        requires
            tenkan > 0 || kijun > 0 || senkou_b > 0 || displacement > 0,
        ensures
            c.wf(),
            c.bars@.len() == 0,
            c.tenkan_period == tenkan,
            c.kijun_period == kijun,
            c.senkou_b_period == senkou_b,
            c.displacement == displacement,
    {
        let first: usize = if tenkan >= kijun { tenkan } else { kijun };
        let second: usize = if senkou_b >= displacement { senkou_b } else { displacement };
        let capacity: usize = if first >= second { first } else { second };
        IchimokuCloud {
            tenkan_period: tenkan,
            kijun_period: kijun,
            senkou_b_period: senkou_b,
            displacement,
            bars: VecDeque::new(),
            capacity,
        }
    }

    /// Whether this is the cloud after a bar came, and `r` its lines.
    pub open spec fn follows(&self, before: Self, bar: Bar, r: IchimokuValues) -> bool {
        &&& self.bars@ == newest(before.bars@.push(bar), before.capacity as nat)
        &&& *self == (IchimokuCloud { bars: self.bars, ..before })
        &&& r.tenkan.units == midpoint(newest(self.bars@, before.tenkan_period as nat))
        &&& r.kijun.units == midpoint(newest(self.bars@, before.kijun_period as nat))
        &&& r.senkou_a.units == truncated_div(r.tenkan.units + r.kijun.units, 2)
        &&& r.senkou_b.units == midpoint(newest(self.bars@, before.senkou_b_period as nat))
        &&& r.chikou == bar.close
    }

    /// Takes in a bar, and gives the lines.
    pub fn update(&mut self, high: Amount, low: Amount, close: Amount) -> (r: IchimokuValues)
        requires
            old(self).wf(),
        ensures
            final(self).wf(),
            final(self).follows(*old(self), (Bar { high, low, close }), r),
    {
        if self.bars.len() >= self.capacity {
            let _ = self.bars.pop_front();
        }
        self.bars.push_back(Bar { high, low, close });
        assert(self.bars@ =~= newest(
            old(self).bars@.push(Bar { high, low, close }),
            old(self).capacity as nat,
        ));
        let tenkan = self.find_midpoint(self.tenkan_period);
        let kijun = self.find_midpoint(self.kijun_period);
        let senkou_a = half(tenkan.units as i128 + kijun.units as i128);
        let senkou_b = self.find_midpoint(self.senkou_b_period);
        IchimokuValues { tenkan, kijun, senkou_a, senkou_b, chikou: close }
    }

    /// The middle between the highest high and the lowest low of the last bars.
    pub fn find_midpoint(&self, period: usize) -> (r: Amount)
        ensures
            r.units == midpoint(newest(self.bars@, period as nat)),
    {
        let n: usize = self.bars.len();
        let start: usize = if n > period { n - period } else { 0 };
        let ghost s = newest(self.bars@, period as nat);
        assert(s =~= self.bars@.skip(start as int));
        if start == n {
            return Amount::zero();
        }
        let mut high: i64 = self.bars[start].high.units;
        let mut low: i64 = self.bars[start].low.units;
        let mut i: usize = start + 1;
        assert(highs(s).take(1)[0] == s[0].high && lows(s).take(1)[0] == s[0].low);
        while i < n
            invariant
                start < i <= n,
                n == self.bars@.len(),
                s == self.bars@.skip(start as int),
                high == highest(highs(s).take(i - start)),
                low == lowest(lows(s).take(i - start)),
            decreases n - i,
        {
            let ghost k = i - start;
            proof {
                assert(s[k] == self.bars@[i as int]);
                assert(highs(s).take(k + 1).drop_last() =~= highs(s).take(k));
                assert(lows(s).take(k + 1).drop_last() =~= lows(s).take(k));
                assert(highs(s).take(k + 1).last() == s[k].high);
                assert(lows(s).take(k + 1).last() == s[k].low);
            }
            if self.bars[i].high.units > high {
                high = self.bars[i].high.units;
            }
            if self.bars[i].low.units < low {
                low = self.bars[i].low.units;
            }
            i += 1;
        }
        assert(highs(s).take(s.len() as int) =~= highs(s));
        assert(lows(s).take(s.len() as int) =~= lows(s));
        half(high as i128 + low as i128)
    }
}

fn half(sum: i128) -> (r: Amount)
    requires
        2 * i64::MIN <= sum <= 2 * i64::MAX,
    ensures
        r.units == truncated_div(sum as int, 2),
{
    Amount { units: divide_wide(sum, 2) as i64 }
}

/// Of bars whose highs are not below their lows, the midpoint lies between the
/// lowest low and the highest high.
pub proof fn law_midpoint_between(s: Seq<Bar>)
    requires
        s.len() > 0,
        forall|i: int| 0 <= i < s.len() ==> (#[trigger] s[i]).low.units <= s[i].high.units,
    ensures
        lowest(lows(s)) <= midpoint(s) <= highest(highs(s)),
{
    lemma_extremes(lows(s));
    lemma_extremes(highs(s));
    assert(s[0].low.units <= s[0].high.units);
    assert(lows(s)[0] == s[0].low && highs(s)[0] == s[0].high);
}

/// How many values make one of a longer timeframe.
pub open spec fn bucket_size(timeframe_ms: u64) -> int {
    if timeframe_ms < 1000 {
        1
    } else {
        timeframe_ms as int / 1000
    }
}

/// The averages of consecutive groups of `size` values; the last group may be
/// smaller.
pub open spec fn group_means(s: Seq<Amount>, size: int) -> Seq<int>
    decreases s.len(),
{
    if s.len() == 0 || size <= 0 {
        Seq::empty()
    } else if s.len() <= size {
        seq![mean(s)]
    } else {
        seq![mean(s.take(size))] + group_means(s.skip(size), size)
    }
}

/// Amounts in units.
pub open spec fn units(s: Seq<Amount>) -> Seq<int> {
    Seq::new(s.len(), |i: int| s[i].units as int)
}

/// Brings prices to several timeframes.
#[derive(Debug, Clone)]
pub struct MultiTimeframeProcessor {
    /// In milliseconds.
    pub timeframes: Vec<u64>,
}

impl MultiTimeframeProcessor {
    /// A processor for timeframes.
    pub fn new(timeframes: Vec<u64>) -> (p: Self)
        ensures
            p.timeframes == timeframes,
    {
        MultiTimeframeProcessor { timeframes }
    }

    /// Prices, one for each second, brought to a timeframe.
    pub fn resample(&self, data: &[Amount], timeframe_ms: u64) -> (r: Vec<Amount>)
        ensures
            units(r@) == group_means(data@, bucket_size(timeframe_ms)),
    {
        let size: u64 = if timeframe_ms < 1000 { 1 } else { timeframe_ms / 1000 };
        let mut out: Vec<Amount> = Vec::new();
        let mut start: usize = 0;
        let n: usize = data.len();
        assert(data@.skip(0) =~= data@);
        assert(units(out@) + group_means(data@, size as int) =~= group_means(data@, size as int));
        while start < n
            invariant
                start <= n,
                n == data@.len(),
                size > 0,
                units(out@) + group_means(data@.skip(start as int), size as int) == group_means(
                    data@,
                    size as int,
                ),
            decreases n - start,
        {
            let ghost rest = data@.skip(start as int);
            let ghost done = units(out@);
            let left: usize = n - start;
            let count: usize = if left as u64 <= size { left } else { size as usize };
            let ghost group = rest.take(count as int);
            let mut sum: i128 = 0;
            let mut k: usize = 0;
            assert(group.take(0) =~= Seq::empty());
            while k < count
                invariant
                    k <= count <= left,
                    left == n - start,
                    n == data@.len(),
                    start <= n,
                    group == data@.skip(start as int).take(count as int),
                    sum == total(group.take(k as int)),
                decreases count - k,
            {
                proof {
                    assert(group.take(k + 1).drop_last() =~= group.take(k as int));
                    assert(group.take(k + 1).last() == data@[start + k]);
                    lemma_total_bounds(group.take(k + 1));
                    lemma_count_bounds((k + 1) as nat, left as nat);
                }
                sum = sum + data[start + k].units as i128;
                k += 1;
            }
            proof {
                assert(group.take(count as int) =~= group);
                lemma_total_bounds(group);
            }
            let average = mean_of(sum, count);
            out.push(average);
            start = start + count;
            proof {
                assert(units(out@) =~= done.push(mean(group)));
                if rest.len() <= size {
                    assert(group =~= rest);
                    assert(data@.skip(start as int) =~= Seq::empty());
                    assert(units(out@) + group_means(data@.skip(start as int), size as int)
                        =~= done + group_means(rest, size as int));
                } else {
                    assert(rest.skip(size as int) =~= data@.skip(start as int));
                    assert(units(out@) + group_means(data@.skip(start as int), size as int)
                        =~= done + group_means(rest, size as int));
                }
            }
        }
        assert(data@.skip(start as int) =~= Seq::empty());
        assert(units(out@) + Seq::<int>::empty() =~= units(out@));
        out
    }
}

} // verus!
