//! How indicators are to be read: what each says of the prices and volumes that
//! went into it.

use vstd::prelude::*;
use crate::base::amount::Amount;
use crate::base::numbers::{fits, product, ratio, saturated, share, truncated_div};
use crate::base::rounding::{
    law_division_cuts_off, law_division_unique, law_product, law_product_at_end, law_ratio,
    lemma_division_rises,
};
use crate::indicators::oscillators::{
    gain, loss, moved, percent_k, strength_index, wilder, Stochastic, MACD, RSI,
};
use crate::indicators::trend_volatility::{
    averaged, bucket_size, directional, group_means, is_deviation, midpoint, percentage, running,
    true_range, variance_after, Bar, BollingerBands, IchimokuCloud, IchimokuValues, ADX, ATR, EMA,
};
use crate::indicators::volume_profile::{
    control_bucket, largest, typical_price, value_area, VolumeBucket, VolumeProfile, CVD, VWAP,
};
use crate::indicators::windows::{highest, lowest, mean, total};

verus! {

/// A sum counts each value once, and a mean times the number of values is their
/// sum but for what is cut off.
pub proof fn law_mean_of_values(s: Seq<Amount>, x: Amount)
    ensures
        total(Seq::empty()) == 0,
        total(s.push(x)) == total(s) + x.units,
        s.len() > 0 && total(s) >= 0 ==> mean(s) * s.len() <= total(s) < mean(s) * s.len()
            + s.len(),
        s.len() > 0 && total(s) <= 0 ==> mean(s) * s.len() - s.len() < total(s) <= mean(s)
            * s.len(),
{
    assert(s.push(x).drop_last() =~= s);
    if s.len() > 0 {
        law_division_cuts_off(total(s), s.len() as int);
    }
}

/// No value lies below the lowest or above the highest, and each is one of the
/// values.
pub proof fn law_extremes(s: Seq<Amount>)
    requires
        s.len() > 0,
    ensures
        forall|i: int|
            0 <= i < s.len() ==> lowest(s) <= (#[trigger] s[i]).units <= highest(s),
        exists|i: int| 0 <= i < s.len() && lowest(s) == (#[trigger] s[i]).units,
        exists|i: int| 0 <= i < s.len() && highest(s) == (#[trigger] s[i]).units,
    decreases s.len(),
{
    if s.len() == 1 {
        assert(s[0].units == lowest(s) && s[0].units == highest(s));
    } else {
        let d = s.drop_last();
        law_extremes(d);
        let l = choose|i: int| 0 <= i < d.len() && lowest(d) == (#[trigger] d[i]).units;
        let h = choose|i: int| 0 <= i < d.len() && highest(d) == (#[trigger] d[i]).units;
        assert(d[l] == s[l] && d[h] == s[h]);
        let n = s.len() - 1;
        assert(s[n] == s.last());
        assert forall|i: int| 0 <= i < s.len() implies lowest(s) <= (#[trigger] s[i]).units
            <= highest(s) by {
            if i < n {
                assert(d[i] == s[i]);
            }
        }
    }
}

/// A price that rose gained what it rose by and lost nothing; one that fell the
/// other way round.
pub proof fn law_gain_and_loss(price: Amount, prev: Amount)
    requires
        fits(price.units - prev.units),
        fits(prev.units - price.units),
    ensures
        price.units >= prev.units ==> gain(price, prev) == price.units - prev.units && loss(
            price,
            prev,
        ) == 0,
        price.units <= prev.units ==> loss(price, prev) == prev.units - price.units && gain(
            price,
            prev,
        ) == 0,
{
}

proof fn lemma_share_falls(a: int, b: int, c: int)
    requires
        0 <= a,
        0 < b <= c,
    ensures
        share(a, c) <= share(a, b),
{
    let x = a * 100_000_000;
    law_division_cuts_off(x, b);
    law_division_cuts_off(x, c);
    let p = truncated_div(x, b);
    let q = truncated_div(x, c);
    assert(q <= p) by (nonlinear_arith)
        requires
            0 < b <= c,
            q * c <= x,
            x < p * b + b,
            q >= 0,
    ;
}

/// The index of strength rises with the gains and falls with the losses; where
/// both are equal it is fifty.
pub proof fn law_strength_index(gains: int, more: int, losses: int, worse: int)
    requires
        0 <= gains <= more,
        0 < losses <= worse,
        0 < gains <= 0x7fff_ffff_ffff_ffff,
    ensures
        strength_index(gains, losses) <= strength_index(more, losses),
        strength_index(gains, worse) <= strength_index(gains, losses),
        strength_index(gains, gains) == 5_000_000_000,
        strength_index(0, losses) == 0,
{
    let one = 100_000_000int;
    let hundred = 10_000_000_000int;
    lemma_division_rises(gains * one, more * one, losses);
    lemma_share_falls(gains, losses, worse);
    law_division_cuts_off(gains * one, losses);
    law_division_cuts_off(gains * one, worse);
    assert(0 <= share(gains, worse) <= share(gains, losses) <= share(more, losses));
    lemma_share_falls(hundred, one + share(gains, losses), one + share(more, losses));
    lemma_share_falls(hundred, one + share(gains, worse), one + share(gains, losses));
    law_division_unique(gains * one, gains, one);
    assert(one * gains == gains * one) by (nonlinear_arith);
    law_division_unique(hundred * one, 2 * one, 5_000_000_000);
    law_division_unique(0, losses, 0);
    law_division_unique(hundred * one, one, hundred);
}

/// A price that rose raises the average gain by a fourteenth of what it is
/// short, and lets the average loss fade; one that fell the other way round. The
/// index shown is that of the two averages.
pub proof fn law_strength_follows_price(
    before: RSI,
    after: RSI,
    price: Amount,
    prev: Amount,
    r: Amount,
)
    requires
        after.follows(before, price, prev, r),
        before.avg_gain.units >= 0,
        before.avg_loss.units >= 0,
        fits(price.units - prev.units),
        fits(prev.units - price.units),
    ensures
        price.units >= prev.units ==> {
            &&& 14 * after.avg_gain.units <= 13 * before.avg_gain.units + (price.units - prev.units)
                < 14 * after.avg_gain.units + 14
            &&& 14 * after.avg_loss.units <= 13 * before.avg_loss.units < 14 * after.avg_loss.units
                + 14
        },
        price.units <= prev.units ==> {
            &&& 14 * after.avg_loss.units <= 13 * before.avg_loss.units + (prev.units - price.units)
                < 14 * after.avg_loss.units + 14
            &&& 14 * after.avg_gain.units <= 13 * before.avg_gain.units < 14 * after.avg_gain.units
                + 14
        },
        r.units == strength_index(after.avg_gain.units as int, after.avg_loss.units as int),
        after.rsi_value == r,
        after.gains.data@.len() > 0 && after.gains.data@.last().units == gain(price, prev),
        after.losses.data@.len() > 0 && after.losses.data@.last().units == loss(price, prev),
{
    law_division_cuts_off(before.avg_gain.units * 13 + gain(price, prev), 14);
    law_division_cuts_off(before.avg_loss.units * 13 + loss(price, prev), 14);
}

/// An exponential average moves towards the value by two parts in the period and
/// one, and stays where it is already there.
pub proof fn law_exponential_average(average: int, value: int, period: usize)
    requires
        fits(average),
        fits(value),
        period >= 1,
    ensures
        value >= average ==> (moved(average, value, period) - average) * (period + 1) <= 2 * (value
            - average) < (moved(average, value, period) - average + 1) * (period + 1),
        value <= average ==> (average - moved(average, value, period)) * (period + 1) <= 2 * (average
            - value) < (average - moved(average, value, period) + 1) * (period + 1),
        moved(average, average, period) == average,
{
    let n = period + 1;
    let x = 2 * (value - average);
    crate::indicators::oscillators::law_average_stays_between(average, value, period);
    crate::indicators::oscillators::law_average_stays_between(average, average, period);
    law_division_cuts_off(x, n);
    let q = truncated_div(x, n);
    assert((q + 1) * n == q * n + n) by (nonlinear_arith);
    assert((-q + 1) * n == -(q * n) + n) by (nonlinear_arith);
    assert((-q) * n == -(q * n)) by (nonlinear_arith);
    assert(value >= average ==> q <= value - average) by (nonlinear_arith)
        requires
            x >= 0 ==> q * n <= x,
            x == 2 * (value - average),
            n >= 2,
    ;
    assert(value <= average ==> -q <= average - value) by (nonlinear_arith)
        requires
            x <= 0 ==> x <= q * n,
            x == 2 * (value - average),
            n >= 2,
    ;
    assert(moved(average, value, period) == average + q);
}

/// The first price is the average; later ones move it.
pub proof fn law_first_price_is_average(e: EMA, price: Amount)
    ensures
        !e.initialized ==> e.value_after(price) == price.units,
        e.initialized ==> e.value_after(price) == moved(
            e.value.units as int,
            price.units as int,
            e.period,
        ),
{
}

/// The line is the fast average less the slow one, the histogram the line less
/// its own average; a price at which both averages stand makes the line zero,
/// and one above them never makes the fast average move less than the slow one
/// where its period is not longer.
pub proof fn law_convergence(m: MACD, price: Amount)
    requires
        m.initialized,
        m.fast_period >= 1,
        m.slow_period >= 1,
        -0x3fff_ffff_ffff_ffff <= m.ema_fast.units <= 0x3fff_ffff_ffff_ffff,
        -0x3fff_ffff_ffff_ffff <= m.ema_slow.units <= 0x3fff_ffff_ffff_ffff,
        -0x3fff_ffff_ffff_ffff <= price.units <= 0x3fff_ffff_ffff_ffff,
    ensures
        ({
            let n = m.after(price);
            &&& n.macd_line.units == n.ema_fast.units - n.ema_slow.units
            &&& fits(n.macd_line.units - n.signal_ema.units) ==> n.histogram.units
                == n.macd_line.units - n.signal_ema.units
            &&& n.ema_fast.units == moved(
                m.ema_fast.units as int,
                price.units as int,
                m.fast_period,
            )
            &&& n.ema_slow.units == moved(
                m.ema_slow.units as int,
                price.units as int,
                m.slow_period,
            )
            &&& n.signal_ema.units == moved(
                m.signal_ema.units as int,
                n.macd_line.units as int,
                m.signal_period,
            )
            &&& m.ema_fast == price && m.ema_slow == price ==> n.macd_line.units == 0
            &&& n.fast_period == m.fast_period
            &&& n.slow_period == m.slow_period
            &&& n.signal_period == m.signal_period
        }),
{
    crate::indicators::oscillators::law_average_stays_between(
        m.ema_fast.units as int,
        price.units as int,
        m.fast_period,
    );
    crate::indicators::oscillators::law_average_stays_between(
        m.ema_slow.units as int,
        price.units as int,
        m.slow_period,
    );
}

/// A close is placed between two prices in percent: nothing at the lower, a
/// hundred at the upper, fifty where they are the same.
pub proof fn law_percent_between(close: int, low: int, high: int)
    requires
        low < high,
        low <= close <= high,
    ensures
        percent_k(close, low, high) * (high - low) <= (close - low) * 10_000_000_000 < percent_k(
            close,
            low,
            high,
        ) * (high - low) + (high - low),
        percent_k(low, low, high) == 0,
        percent_k(high, low, high) == 10_000_000_000,
        percent_k(close, low, low) == 5_000_000_000,
{
    let d = high - low;
    let x = (close - low) * 10_000_000_000;
    law_division_cuts_off(x, d);
    let q = truncated_div(x, d);
    assert(0 <= q <= 10_000_000_000) by (nonlinear_arith)
        requires
            q * d <= x,
            x == (close - low) * 10_000_000_000,
            close - low <= d,
            d > 0,
            q >= 0,
    ;
    law_division_unique(0, d, 0);
    assert(10_000_000_000 * d == d * 10_000_000_000) by (nonlinear_arith);
    law_division_unique(d * 10_000_000_000, d, 10_000_000_000);
}

/// The oscillator places the close between the highest low and the lowest high
/// of its window, and smooths that over the last three.
pub proof fn law_oscillator_places_close(
    before: Stochastic,
    after: Stochastic,
    high: Amount,
    low: Amount,
    close: Amount,
    r: (Amount, Amount),
)
    requires
        after.follows(before, high, low, close, r),
        before.wf(),
    ensures
        r.0.units == percent_k(
            close.units as int,
            highest(after.lows.data@),
            lowest(after.highs.data@),
        ),
        r.1.units == mean(after.k_values.data@),
        after.highs.data@.last() == high,
        after.lows.data@.last() == low,
        after.k_values.data@.last() == r.0,
        after.highs.data@.len() == 14,
        after.lows.data@.len() == 14,
        after.k_values.data@.len() == 3,
        highest(after.lows.data@) >= low.units,
        lowest(after.highs.data@) <= high.units,
{
    law_extremes(after.lows.data@);
    law_extremes(after.highs.data@);
    let l = after.lows.data@;
    let h = after.highs.data@;
    assert(l[l.len() - 1] == low);
    assert(h[h.len() - 1] == high);
}

/// The variance keeps nineteen twentieths and takes one twentieth of the latest
/// square; a deviation is its root.
pub proof fn law_variance(variance: int, deviation: int, r: int)
    requires
        variance >= 0,
    ensures
        20 * variance_after(variance, deviation) <= 19 * variance + product(deviation, deviation)
            < 20 * variance_after(variance, deviation) + 20,
        is_deviation(r, variance) ==> r >= 0 && r * r <= variance * 100_000_000 < (r + 1) * (r + 1),
{
    assert(deviation * deviation >= 0) by (nonlinear_arith);
    law_division_cuts_off(deviation * deviation, 100_000_000);
    law_division_cuts_off(variance * 19 + product(deviation, deviation), 20);
}

/// The upper band lies at or above the average and the lower one at or below it,
/// both equally far, and the width is that distance as part of the average.
pub proof fn law_bands_around_average<const N: usize>(
    before: BollingerBands<N>,
    after: BollingerBands<N>,
    price: Amount,
    r: (Amount, Amount, Amount),
)
    requires
        after.follows(before, price, r),
        before.std_mult.units >= 0,
    ensures
        r.2.units <= r.1.units <= r.0.units,
        r.0.units < 0x7fff_ffff_ffff_ffff && r.2.units > -0x8000_0000_0000_0000 ==> r.0.units
            - r.1.units == r.1.units - r.2.units,
        after.upper == r.0,
        after.lower == r.2,
        r.1.units == mean(after.sma.buffer@),
        r.1.units != 0 ==> after.bandwidth.units == ratio(
            r.0.units - r.2.units,
            r.1.units as int,
        ),
        r.1.units == 0 ==> after.bandwidth.units == 0,
{
    let d = choose|d: i64| #[trigger]
        is_deviation(d as int, after.sum_sq.units as int) && r.0.units == saturated(
            r.1.units + product(before.std_mult.units as int, d as int),
        ) && r.2.units == saturated(r.1.units - product(before.std_mult.units as int, d as int));
    law_product_at_end(before.std_mult.units as int, d as int);
}

/// The true range is the widest of the bar and of the ways from the close before
/// to its ends.
pub proof fn law_true_range(high: Amount, low: Amount, prev: Amount)
    requires
        0 <= low.units <= high.units,
        prev.units >= 0,
    ensures
        ({
            let t = true_range(high, low, Some(prev));
            &&& t >= high.units - low.units
            &&& t >= high.units - prev.units
            &&& t >= prev.units - low.units
            &&& t == high.units - low.units || t == high.units - prev.units || t == prev.units
                - low.units
        }),
        true_range(high, low, None) == high.units - low.units,
{
}

/// An average over a period takes the latest value for one part of it.
pub proof fn law_average_over_period(average: int, value: int, period: usize)
    requires
        average >= 0,
        value >= 0,
        period > 0,
    ensures
        averaged(average, value, period) * period <= average * (period - 1) + value < averaged(
            average,
            value,
            period,
        ) * period + period,
        averaged(average, average, period) == average,
        averaged(average, value, 1) == value,
{
    let x = average * (period - 1) + value;
    assert(x >= 0) by (nonlinear_arith)
        requires
            x == average * (period - 1) + value,
            average >= 0,
            value >= 0,
            period > 0,
    ;
    law_division_cuts_off(x, period as int);
    assert(average * (period - 1) + average == average * period) by (nonlinear_arith);
    assert(average * period >= 0) by (nonlinear_arith)
        requires
            average >= 0,
    ;
    law_division_unique(average * period, period as int, average);
    assert(average * (1 - 1) + value == value) by (nonlinear_arith);
    assert(value * 1 == value) by (nonlinear_arith);
    law_division_unique(value, 1, value);
}

/// The average range starts with the first range and then takes the latest for
/// one part of the period; ranges count the close before once there is one.
pub proof fn law_average_range(a: ATR, high: Amount, low: Amount)
    ensures
        a.atr_value.units == 0 ==> a.value_after(high, low) == a.range_of(high, low),
        a.atr_value.units != 0 ==> a.value_after(high, low) == averaged(
            a.atr_value.units as int,
            a.range_of(high, low),
            a.period,
        ),
        a.initialized ==> a.range_of(high, low) == true_range(high, low, Some(a.prev_close)),
        !a.initialized ==> a.range_of(high, low) == true_range(high, low, None),
{
}

/// Only the larger of a move up and a move down counts, and only where it is a
/// move at all; a higher high is a move up, a lower low a move down.
pub proof fn law_directional_moves(
    a: ADX,
    high: Amount,
    low: Amount,
    prev_high: Amount,
    prev_low: Amount,
    up: int,
    down: int,
)
    requires
        fits(up),
        fits(down),
    ensures
        up > down && up > 0 ==> directional(up, down) == up && directional(down, up) == 0,
        up == down ==> directional(up, down) == 0,
        up <= 0 ==> directional(up, down) == 0,
        a.moves_after(high, low, prev_high, prev_low).0 == running(
            a.plus_dm.units as int,
            directional(high.units - prev_high.units, prev_low.units - low.units),
            a.period,
        ),
        a.moves_after(high, low, prev_high, prev_low).1 == running(
            a.minus_dm.units as int,
            directional(prev_low.units - low.units, high.units - prev_high.units),
            a.period,
        ),
{
}

/// A running sum gives up one part of its period and takes the latest value.
pub proof fn law_running_sum(sum: int, value: int, period: usize)
    requires
        0 <= sum <= 0x3fff_ffff_ffff_ffff,
        0 <= value <= 0x3fff_ffff_ffff_ffff,
        period > 0,
    ensures
        (sum + value - running(sum, value, period)) * period <= sum < (sum + value - running(
            sum,
            value,
            period,
        )) * period + period,
        running(0, value, period) == value,
{
    let n = period as int;
    law_division_cuts_off(sum, n);
    law_division_unique(0, n, 0);
    let q = truncated_div(sum, n);
    assert(q <= sum) by (nonlinear_arith)
        requires
            q * n <= sum,
            q >= 0,
            n >= 1,
    ;
}

/// Directions are the moves as percentages of the range, up first; the index is
/// their distance as percentage of their sum, whichever is larger.
pub proof fn law_directions(moves: (int, int), range: int, di: (int, int))
    requires
        range > 0,
        0 <= moves.0 <= range,
        di.0 >= 0,
        di.1 >= 0,
    ensures
        ADX::directions(moves, range).0 * range <= moves.0 * 10_000_000_000 < ADX::directions(
            moves,
            range,
        ).0 * range + range,
        ADX::directions(moves, range).1 == percentage(moves.1, range),
        ADX::difference(di) == ADX::difference((di.1, di.0)),
        di.0 == di.1 ==> ADX::difference(di) == 0,
        di.0 > 0 && di.1 == 0 ==> ADX::difference(di) == 10_000_000_000,
{
    let x = moves.0 * 10_000_000_000;
    law_division_cuts_off(x, range);
    let q = truncated_div(x, range);
    assert(q <= 10_000_000_000) by (nonlinear_arith)
        requires
            q * range <= x,
            x == moves.0 * 10_000_000_000,
            moves.0 <= range,
            range > 0,
    ;
    if di.0 + di.1 > 0 {
        law_division_unique(0, di.0 + di.1, 0);
    }
    if di.0 > 0 && di.1 == 0 {
        assert(10_000_000_000 * di.0 == di.0 * 10_000_000_000) by (nonlinear_arith);
        law_division_unique(di.0 * 10_000_000_000, di.0, 10_000_000_000);
    }
}

/// The lines of the cloud are middles of the latest bars, each over its own
/// period; the leading one is the middle of the first two, and the lagging one
/// the close.
pub proof fn law_cloud_lines(
    before: IchimokuCloud,
    after: IchimokuCloud,
    bar: Bar,
    r: IchimokuValues,
)
    requires
        after.follows(before, bar, r),
        before.wf(),
        before.tenkan_period == 1,
        bar.high.units >= 0,
        bar.low.units >= 0,
        r.kijun.units >= 0,
    ensures
        2 * r.tenkan.units <= bar.high.units + bar.low.units < 2 * r.tenkan.units + 2,
        2 * r.senkou_a.units <= r.tenkan.units + r.kijun.units < 2 * r.senkou_a.units + 2,
        r.chikou == bar.close,
        after.bars@.len() > 0,
        after.bars@.last() == bar,
{
    let s = before.bars@.push(bar);
    let n = before.capacity as int;
    if s.len() > n {
        assert(s.skip(s.len() - n).last() == s.last());
    }
    let b = after.bars@;
    let one = crate::base::sequences::newest(b, 1);
    assert(one.len() == 1 && one[0] == bar);
    assert(crate::indicators::trend_volatility::highs(one)[0] == bar.high);
    assert(crate::indicators::trend_volatility::lows(one)[0] == bar.low);
    law_division_cuts_off(bar.high.units + bar.low.units, 2);
    law_division_cuts_off(r.tenkan.units + r.kijun.units, 2);
}

/// A middle lies halfway between the highest high and the lowest low.
pub proof fn law_middle(s: Seq<Bar>)
    requires
        s.len() > 0,
    ensures
        ({
            let sum = highest(crate::indicators::trend_volatility::highs(s)) + lowest(
                crate::indicators::trend_volatility::lows(s),
            );
            &&& sum >= 0 ==> 2 * midpoint(s) <= sum < 2 * midpoint(s) + 2
            &&& sum <= 0 ==> 2 * midpoint(s) - 2 < sum <= 2 * midpoint(s)
        }),
        midpoint(Seq::empty()) == 0,
{
    law_division_cuts_off(
        highest(crate::indicators::trend_volatility::highs(s)) + lowest(
            crate::indicators::trend_volatility::lows(s),
        ),
        2,
    );
}

/// Values are grouped by whole seconds, each group into its mean, in order.
pub proof fn law_groups(s: Seq<Amount>, size: int, ms: u64)
    requires
        size > 0,
        s.len() > 0,
    ensures
        ms >= 1000 ==> bucket_size(ms) * 1000 <= ms < (bucket_size(ms) + 1) * 1000,
        ms < 1000 ==> bucket_size(ms) == 1,
        s.len() <= size ==> group_means(s, size) == seq![mean(s)],
        s.len() > size ==> group_means(s, size) == seq![mean(s.take(size))] + group_means(
            s.skip(size),
            size,
        ),
{
}

/// The typical price is a third of high, low and close together.
pub proof fn law_typical_price(high: Amount, low: Amount, close: Amount)
    requires
        high.units + low.units + close.units >= 0,
    ensures
        3 * typical_price(high, low, close) <= high.units + low.units + close.units < 3
            * typical_price(high, low, close) + 3,
{
    law_division_cuts_off(high.units + low.units + close.units, 3);
}

/// The average price by volume weighs each typical price by its volume, from the
/// start of the session.
pub proof fn law_price_by_volume(v: VWAP, typical: int, volume: Amount)
    ensures
        v.session_reset ==> v.sums_after(typical, volume) == (
            typical * volume.units,
            volume.units as int,
        ),
        !v.session_reset ==> v.sums_after(typical, volume).0 - v.cumulative_tp_volume == typical
            * volume.units && v.sums_after(typical, volume).1 - v.cumulative_volume == volume.units,
        v.sums_after(typical, volume).1 > 0 && v.sums_after(typical, volume).0 >= 0
            && v.value_after(typical, volume) < 0x7fff_ffff_ffff_ffff ==> v.value_after(
            typical,
            volume,
        ) * v.sums_after(typical, volume).1 <= v.sums_after(typical, volume).0 < v.value_after(
            typical,
            volume,
        ) * v.sums_after(typical, volume).1 + v.sums_after(typical, volume).1,
        v.sums_after(typical, volume).1 <= 0 ==> v.value_after(typical, volume) == typical,
        !v.after(typical, volume).session_reset,
{
    let s = v.sums_after(typical, volume);
    if s.1 > 0 {
        law_division_cuts_off(s.0, s.1);
    }
}

/// A trade adds its volume to its own side and to the whole of its bucket.
pub proof fn law_trade_in_bucket(b: VolumeBucket, volume: Amount, is_buy: bool)
    requires
        fits(b.buy_volume.units + volume.units),
        fits(b.sell_volume.units + volume.units),
        fits(b.total_volume.units + volume.units),
        b.trade_count < u32::MAX,
    ensures
        ({
            let n = b.with_trade(volume, is_buy);
            &&& is_buy ==> n.buy_volume.units == b.buy_volume.units + volume.units && n.sell_volume
                == b.sell_volume
            &&& !is_buy ==> n.sell_volume.units == b.sell_volume.units + volume.units
                && n.buy_volume == b.buy_volume
            &&& n.total_volume.units == b.total_volume.units + volume.units
            &&& n.trade_count == b.trade_count + 1
            &&& n.price_low == b.price_low
            &&& n.price_high == b.price_high
        }),
{
}

/// No bucket has more volume than the one of control, and it has the largest
/// there is where there is any.
pub proof fn law_control_has_most_volume(s: Seq<VolumeBucket>, n: int, i: int)
    requires
        1 <= n <= s.len(),
        0 <= i < n,
    ensures
        0 <= control_bucket(s, n) < n,
        s[i].total_volume.units <= largest(s, n),
        largest(s, n) >= 0,
        largest(s, n) > 0 ==> s[control_bucket(s, n)].total_volume.units == largest(s, n),
    decreases n,
{
    if n > 1 {
        law_control_has_most_volume(s, n - 1, if i < n - 1 {
            i
        } else {
            0
        });
    } else {
        assert(largest(s, 0) == 0);
    }
}

/// A price falls into the bucket whose bounds enclose it, and into none outside
/// of the prices covered.
pub proof fn law_price_in_bucket(p: VolumeProfile, price: Amount)
    requires
        p.wf(),
    ensures
        p.bucket_of(price) matches Some(i) ==> 0 <= i < p.buckets@.len() && p.min_price.units + i
            * p.bucket_size.units <= price.units < p.min_price.units + (i + 1)
            * p.bucket_size.units,
        price.units < p.min_price.units || price.units > p.max_price.units ==> p.bucket_of(
            price,
        ) is None,
{
    if p.bucket_of(price) is Some {
        let d = price.units - p.min_price.units;
        let b = p.bucket_size.units as int;
        let i = d / b;
        assert(0 <= i && i * b <= d < (i + 1) * b) by (nonlinear_arith)
            requires
                d >= 0,
                b > 0,
                i == d / b,
        ;
    }
}

/// Enough buckets are made to cover the prices, and not one more.
pub proof fn law_buckets_cover_prices(low: Amount, high: Amount, size: Amount)
    requires
        size.units > 0,
        low.units < high.units,
    ensures
        VolumeProfile::buckets_needed(low, high, size) * size.units >= high.units - low.units,
        (VolumeProfile::buckets_needed(low, high, size) - 1) * size.units < high.units - low.units,
{
    let s = size.units as int;
    let d = high.units - low.units;
    let x = d + s - 1;
    let q = x / s;
    assert(q * s >= d && (q - 1) * s < d) by (nonlinear_arith)
        requires
            s > 0,
            x == d + s - 1,
            q == x / s,
    ;
}

/// What the buckets between two places hold.
pub open spec fn held(s: Seq<VolumeBucket>, left: int, right: int) -> int
    decreases right - left + 1,
{
    if right < left {
        0
    } else {
        held(s, left, right - 1) + s[right].total_volume.units
    }
}

proof fn lemma_held_from_left(s: Seq<VolumeBucket>, left: int, right: int)
    requires
        left <= right,
    ensures
        held(s, left, right) == s[left].total_volume.units + held(s, left + 1, right),
    decreases right - left,
{
    reveal_with_fuel(held, 2);
    if left < right {
        lemma_held_from_left(s, left, right - 1);
    }
}

/// The value area holds its part of the volume, unless it is the whole profile.
pub proof fn law_value_area_holds_its_part(
    s: Seq<VolumeBucket>,
    left: int,
    right: int,
    target: int,
)
    requires
        0 <= left <= right < s.len(),
        forall|i: int| 0 <= i < s.len() ==> (#[trigger] s[i]).total_volume.units >= 0,
    ensures
        ({
            let a = value_area(s, left, right, held(s, left, right), target);
            &&& 0 <= a.0 <= left
            &&& right <= a.1 < s.len()
            &&& held(s, a.0, a.1) * 100_000_000 >= target || (a.0 == 0 && a.1 == s.len() - 1)
        }),
    decreases left + s.len() - right,
{
    let volume = held(s, left, right);
    let left_vol = if left > 0 {
        s[left - 1].total_volume.units as int
    } else {
        0
    };
    let right_vol = if right < s.len() - 1 {
        s[right + 1].total_volume.units as int
    } else {
        0
    };
    if volume * 100_000_000 >= target {
    } else if left > 0 && left_vol >= right_vol {
        lemma_held_from_left(s, left - 1, right);
        law_value_area_holds_its_part(s, left - 1, right, target);
    } else if right < s.len() - 1 {
        law_value_area_holds_its_part(s, left, right + 1, target);
    }
}

/// The levels of a profile lie in order: the area of value starts at or below
/// the point of control and ends above it.
pub proof fn law_levels_in_order(p: VolumeProfile)
    requires
        p.wf(),
        p.levels_current(),
        p.buckets@.len() > 0,
    ensures
        p.val_price.units <= p.poc_price.units < p.vah_price.units,
{
    let n = p.buckets@.len() as int;
    law_control_has_most_volume(p.buckets@, n, 0);
    let c = p.control();
    crate::indicators::volume_profile::law_value_area_contains_control(
        p.buckets@,
        c,
        c,
        largest(p.buckets@, n),
        p.total_volume.units * p.value_area_percent.units,
    );
    let b = p.bucket_size.units as int;
    let l = p.area().0;
    let h = p.area().1;
    assert(l * b <= c * b && (c + 1) * b <= (h + 1) * b && (c + 1) * b == c * b + b)
        by (nonlinear_arith)
        requires
            l <= c <= h,
            b > 0,
    ;
}

/// A trade that buys raises the cumulative delta by its volume, one that sells
/// lowers it by as much; each is added to its own side and is the latest in the
/// history.
pub proof fn law_trade_moves_cumulative_delta(
    before: CVD,
    after: CVD,
    volume: Amount,
    is_buy: bool,
)
    requires
        after.follows(before, volume, is_buy),
        volume.units > -0x8000_0000_0000_0000,
        fits(before.cumulative_delta.units + volume.units),
        fits(before.cumulative_delta.units - volume.units),
        fits(before.buy_volume.units + volume.units),
        fits(before.sell_volume.units + volume.units),
        before.history_size > 0,
    ensures
        is_buy ==> after.cumulative_delta.units == before.cumulative_delta.units + volume.units
            && after.buy_volume.units == before.buy_volume.units + volume.units
            && after.sell_volume == before.sell_volume,
        !is_buy ==> after.cumulative_delta.units == before.cumulative_delta.units - volume.units
            && after.sell_volume.units == before.sell_volume.units + volume.units
            && after.buy_volume == before.buy_volume,
        after.delta_history@.len() > 0,
        is_buy ==> after.delta_history@.last().units == volume.units,
        !is_buy ==> after.delta_history@.last().units == -volume.units,
{
    let x = Amount { units: CVD::delta(volume, is_buy) as i64 };
    let s = before.delta_history@.push(x);
    let n = before.history_size as int;
    if s.len() > n {
        assert(s.skip(s.len() - n).last() == s.last());
    }
}

} // verus!
