//! What slices, clips and urgencies mean, told from quantities and times.

use vstd::prelude::*;
use crate::base::amount::Amount;
use crate::base::numbers::{fits, ratio, share, truncated_div};
use crate::base::rounding::{law_division_cuts_off, law_product_at_end, law_ratio};
use crate::execution::adaptive_algos::{
    average_after, imbalance, order_type_for, price_offset, volume, weighs_book, weighted_volume,
    whole_bps, AdaptiveExecutor, CvdTracker, ExecutionOrderType, OrderBookImbalance,
};
use crate::execution::discretionary_orders::{
    smoothed, time_to_fill, DiscretionaryManager, DynamicClipAdjuster, ReserveOrder,
    ReserveOrderManager,
};
use crate::execution::iceberg_sniper::{
    all_signals, anomaly_signal, anomaly_signals, books_back, depth_beyond, flow_signal, is_strongest,
    refresh_signals, refreshes, same_size, smoothed_rate, taken_by, unusual, AggressorSide, DynamicIceberg, HiddenLiquidityMethod,
    HiddenLiquiditySignal, OrderBookLevel, OrderBookSnapshot, TradeFlowRecord,
};
use crate::execution::twap_vwap::{
    completion, later, progress_pct, weight_sum, IcebergOrder, TwapExecutor, VwapExecutor,
};

verus! {

/// The volume of a side counts each level once, in full; the weighted one
/// counts the first level in full, the second by half, the third by a third and
/// so on.
pub proof fn law_volume_adds_up(s: Seq<(Amount, Amount)>, level: (Amount, Amount))
    ensures
        volume(Seq::empty()) == 0,
        volume(s.push(level)) == volume(s) + level.1.units,
        weighted_volume(Seq::empty()) == 0,
        level.1.units >= 0 ==> {
            let more = weighted_volume(s.push(level)) - weighted_volume(s);
            more * (s.len() + 1) <= level.1.units < (more + 1) * (s.len() + 1)
        },
{
    assert(s.push(level).drop_last() =~= s);
    let x = level.1.units as int;
    let n = s.len() as int + 1;
    law_division_cuts_off(x, n);
    let q = truncated_div(x, n);
    assert((q + 1) * n == q * n + n) by (nonlinear_arith);
}

/// The imbalance of a book is the difference of its sides as part of their sum:
/// positive where there is more to buy, negative where there is more to sell.
pub proof fn law_imbalance_is_part(bids: int, asks: int)
    requires
        bids >= 0,
        asks >= 0,
        bids + asks > 0,
    ensures
        bids >= asks ==> imbalance(bids, asks) >= 0 && imbalance(bids, asks) * (bids + asks) <= (
        bids - asks) * 100_000_000 < imbalance(bids, asks) * (bids + asks) + (bids + asks),
        imbalance(asks, bids) == -imbalance(bids, asks),
        imbalance(bids, 0) == (if bids > 0 {
            100_000_000int
        } else {
            0
        }),
{
    let d = bids - asks;
    let n = bids + asks;
    assert(-0x8000_0000_0000_0000 * n <= d * 100_000_000 <= 0x7fff_ffff_ffff_ffff * n)
        by (nonlinear_arith)
        requires
            n > 0,
            -n <= d <= n,
    ;
    law_ratio(d, n);
    assert((asks - bids) * 100_000_000 == -(d * 100_000_000));
    law_division_cuts_off(d * 100_000_000, n);
    assert(-0x8000_0000_0000_0000 < share(d, n)) by (nonlinear_arith)
        requires
            n > 0,
            -n <= d <= n,
            d >= 0 ==> share(d, n) >= 0,
            d <= 0 ==> d * 100_000_000 <= share(d, n) * n,
    ;
    if bids > 0 {
        assert(-0x8000_0000_0000_0000 * bids <= bids * 100_000_000 <= 0x7fff_ffff_ffff_ffff * bids)
            by (nonlinear_arith)
            requires
                bids > 0,
        ;
        law_ratio(bids, bids);
        assert(share(bids, bids) == 100_000_000) by (nonlinear_arith)
            requires
                bids > 0,
                share(bids, bids) * bids <= bids * 100_000_000 < share(bids, bids) * bids + bids,
        ;
    }
}

/// A trade that buys adds its quantity to the bought volume and to the delta;
/// one that sells adds it to the sold volume and takes it from the delta. Soon
/// after the last trade, the rate is the change of the delta per second.
pub proof fn law_trade_moves_delta(t: CvdTracker, quantity: Amount, now: u64)
    requires
        t.wf(),
        0 <= t.buy_volume.units <= 0x3fff_ffff_ffff_ffff,
        0 <= t.sell_volume.units <= 0x3fff_ffff_ffff_ffff,
        0 <= quantity.units <= 0x3fff_ffff_ffff_ffff,
    ensures
        ({
            let b = t.after_trade(quantity, true, now);
            &&& b.buy_volume.units == t.buy_volume.units + quantity.units
            &&& b.sell_volume.units == t.sell_volume.units
            &&& b.cvd_value.units == t.cvd_value.units + quantity.units
            &&& b.last_update_ts == now
            &&& 0 < now - t.last_update_ts < 60 ==> b.cvd_rate.units * (now - t.last_update_ts)
                <= quantity.units < (b.cvd_rate.units + 1) * (now - t.last_update_ts)
            &&& !(0 < now - t.last_update_ts < 60) ==> b.cvd_rate == t.cvd_rate
        }),
        ({
            let s = t.after_trade(quantity, false, now);
            &&& s.buy_volume.units == t.buy_volume.units
            &&& s.sell_volume.units == t.sell_volume.units + quantity.units
            &&& s.cvd_value.units == t.cvd_value.units - quantity.units
            &&& s.last_update_ts == now
            &&& 0 < now - t.last_update_ts < 60 ==> s.cvd_rate.units <= 0
        }),
{
    let e = now - t.last_update_ts;
    if 0 < e < 60 {
        let x = quantity.units as int;
        law_division_cuts_off(x, e);
        law_division_cuts_off(-x, e);
        let q = truncated_div(x, e);
        assert((q + 1) * e == q * e + e) by (nonlinear_arith);
        assert(q <= x) by (nonlinear_arith)
            requires
                q * e <= x,
                e > 0,
                q >= 0,
        ;
    }
}

/// The normalized delta is the difference of bought and sold as part of their
/// sum, and zero where there is next to no volume.
pub proof fn law_normalized_delta(t: CvdTracker)
    requires
        t.buy_volume.units >= 0,
        t.sell_volume.units >= 0,
    ensures
        t.buy_volume.units + t.sell_volume.units >= 100_000 ==> t.normalized() == imbalance(
            t.buy_volume.units as int,
            t.sell_volume.units as int,
        ),
        t.buy_volume.units + t.sell_volume.units < 100_000 ==> t.normalized() == 0,
{
}

/// The more urgent, the more aggressive: below a quarter an order waits, below
/// a half it quotes normally, below three quarters it quotes aggressively, and
/// from there it goes to the market at once.
pub proof fn law_urgency_picks_order_type(urgency: int)
    ensures
        order_type_for(urgency) == ExecutionOrderType::LimitPassive <==> urgency < 25_000_000,
        order_type_for(urgency) == ExecutionOrderType::LimitNormal <==> 25_000_000 <= urgency
            < 50_000_000,
        order_type_for(urgency) == ExecutionOrderType::LimitAggressive <==> 50_000_000 <= urgency
            < 75_000_000,
        order_type_for(urgency) == ExecutionOrderType::MarketImmediate <==> urgency >= 75_000_000,
{
}

/// A passive order stays half the spread back, a normal one at the price, an
/// aggressive one crosses a quarter and an immediate one half of the spread,
/// each in whole basis points.
pub proof fn law_price_offset_by_type(spread: int)
    requires
        0 <= spread < 0x8000_0000 * 100_000_000,
    ensures
        whole_bps(spread) * 100_000_000 <= spread < (whole_bps(spread) + 1) * 100_000_000,
        ({
            let w = whole_bps(spread);
            &&& -w <= 2 * price_offset(ExecutionOrderType::LimitPassive, spread) < -w + 2
            &&& price_offset(ExecutionOrderType::LimitNormal, spread) == 0
            &&& 4 * price_offset(ExecutionOrderType::LimitAggressive, spread) <= w < 4
                * price_offset(ExecutionOrderType::LimitAggressive, spread) + 4
            &&& 2 * price_offset(ExecutionOrderType::MarketImmediate, spread) <= w < 2
                * price_offset(ExecutionOrderType::MarketImmediate, spread) + 2
        }),
{
    law_division_cuts_off(spread, 100_000_000);
    let w = whole_bps(spread);
    law_division_cuts_off(-w, 2);
    law_division_cuts_off(w, 4);
    law_division_cuts_off(w, 2);
}

/// A buyer hurries the more the book leans to the sellers and the more the
/// trades bought; a seller the other way round. The two of a side and those of
/// the other make up the whole.
pub proof fn law_urgency_of_sides(buyer: AdaptiveExecutor, seller: AdaptiveExecutor, ratio: int)
    requires
        buyer.is_buy,
        !seller.is_buy,
        buyer.cvd_tracker == seller.cvd_tracker,
        -100_000_000 <= ratio <= 100_000_000,
        -100_000_000 <= buyer.cvd_tracker.normalized() <= 100_000_000,
    ensures
        2 * buyer.book_urgency(ratio) <= 100_000_000 - ratio < 2 * buyer.book_urgency(ratio) + 2,
        2 * seller.book_urgency(ratio) <= 100_000_000 + ratio < 2 * seller.book_urgency(ratio) + 2,
        2 * buyer.delta_urgency() <= 100_000_000 + buyer.cvd_tracker.normalized() < 2
            * buyer.delta_urgency() + 2,
        2 * seller.delta_urgency() <= 100_000_000 - seller.cvd_tracker.normalized() < 2
            * seller.delta_urgency() + 2,
{
    law_division_cuts_off(100_000_000 - ratio, 2);
    law_division_cuts_off(100_000_000 + ratio, 2);
    law_division_cuts_off(100_000_000 + buyer.cvd_tracker.normalized(), 2);
    law_division_cuts_off(100_000_000 - buyer.cvd_tracker.normalized(), 2);
}

/// Between its thresholds, the urgency is made of three tenths of the signal's,
/// a quarter of the book's, a fifth of the delta's, fifteen hundredths of the
/// progress and a tenth of the volatility's.
pub proof fn law_urgency_weights(e: AdaptiveExecutor, ratio: int, alpha: int, volatility: int)
    requires
        e.wf(),
        volatility >= 0,
        e.book_urgency(ratio) >= 0,
        e.delta_urgency() >= 0,
        e.progress() >= 0,
    ensures
        ({
            let u = e.urgency(ratio, alpha, volatility);
            let parts = 30 * AdaptiveExecutor::alpha_urgency(alpha) + 25 * e.book_urgency(ratio)
                + 20 * e.delta_urgency() + 15 * e.progress() + 10
                * AdaptiveExecutor::volatility_urgency(volatility);
            &&& e.min_urgency_threshold.units <= u <= e.max_urgency_threshold.units
            &&& e.min_urgency_threshold.units < u < e.max_urgency_threshold.units ==> 100 * u
                <= parts < 100 * u + 100
            &&& u == e.min_urgency_threshold.units < e.max_urgency_threshold.units ==> parts < 100
                * u + 100
            &&& u == e.max_urgency_threshold.units > e.min_urgency_threshold.units ==> parts >= 100
                * u
        }),
        0 <= volatility <= 10_000_000 ==> AdaptiveExecutor::volatility_urgency(volatility) == 10
            * volatility,
        volatility >= 10_000_000 ==> AdaptiveExecutor::volatility_urgency(volatility)
            == 100_000_000,
        0 <= alpha <= 10_000_000_000 ==> 100 * AdaptiveExecutor::alpha_urgency(alpha) <= alpha
            < 100 * AdaptiveExecutor::alpha_urgency(alpha) + 100,
        alpha >= 10_000_000_000 ==> AdaptiveExecutor::alpha_urgency(alpha) == 100_000_000,
        AdaptiveExecutor::alpha_urgency(-alpha) == AdaptiveExecutor::alpha_urgency(alpha),
{
    let parts = 30 * AdaptiveExecutor::alpha_urgency(alpha) + 25 * e.book_urgency(ratio) + 20
        * e.delta_urgency() + 15 * e.progress() + 10 * AdaptiveExecutor::volatility_urgency(
        volatility,
    );
    law_division_cuts_off(parts, 100);
}

/// The progress is what was executed as part of the target.
pub proof fn law_progress_is_part(e: AdaptiveExecutor)
    requires
        0 <= e.executed_quantity.units <= e.target_quantity.units,
        e.target_quantity.units > 0,
    ensures
        e.progress() * e.target_quantity.units <= e.executed_quantity.units * 100_000_000
            < e.progress() * e.target_quantity.units + e.target_quantity.units,
        e.open_part() * e.target_quantity.units <= (e.target_quantity.units
            - e.executed_quantity.units) * 100_000_000 < e.open_part() * e.target_quantity.units
            + e.target_quantity.units,
        e.remaining() + e.executed_quantity.units == e.target_quantity.units,
{
    let t = e.target_quantity.units as int;
    let x = e.executed_quantity.units as int;
    assert(x * 100_000_000 <= 0x7fff_ffff_ffff_ffff * t && (t - x) * 100_000_000
        <= 0x7fff_ffff_ffff_ffff * t) by (nonlinear_arith)
        requires
            0 <= x <= t,
            t > 0,
    ;
    assert(-0x8000_0000_0000_0000 * t <= 0) by (nonlinear_arith)
        requires
            t > 0,
    ;
    law_ratio(x, t);
    law_ratio(t - x, t);
}

/// The slippage to expect is half the spread where nothing is left or nothing
/// moves, and more the more is left.
pub proof fn law_slippage_floor(e: AdaptiveExecutor, spread: int, volatility: int)
    requires
        0 <= spread <= 0x7fff_ffff_ffff_ffff,
        volatility >= 0,
    ensures
        2 * e.slippage(spread, 0) <= spread < 2 * e.slippage(spread, 0) + 2,
        e.slippage(spread, volatility) >= e.slippage(spread, 0),
{
    law_division_cuts_off(spread, 2);
    let o = e.open_part();
    law_product_at_end(o, volatility);
    assert(o * 0 == 0) by (nonlinear_arith);
    law_division_cuts_off(0, 100_000_000);
    assert(o >= 0);
}

/// The average price after a fill is that of all that was executed, each at its
/// own price.
pub proof fn law_average_weighs_quantities(avg: int, executed: int, price: int, quantity: int)
    requires
        0 <= avg,
        0 <= price,
        fits(avg),
        fits(price),
        executed >= 0,
        quantity >= 0,
        executed + quantity > 0,
    ensures
        ({
            let r = average_after(avg, executed, price, quantity);
            r * (executed + quantity) <= avg * executed + price * quantity < r * (executed
                + quantity) + executed + quantity
        }),
{
    crate::execution::adaptive_algos::law_average_between(avg, executed, price, quantity);
    let sum = avg * executed + price * quantity;
    let n = executed + quantity;
    assert(sum >= 0) by (nonlinear_arith)
        requires
            sum == avg * executed + price * quantity,
            avg >= 0,
            price >= 0,
            executed >= 0,
            quantity >= 0,
    ;
    law_division_cuts_off(sum, n);
    let q = truncated_div(sum, n);
    assert(q <= avg || q <= price) by (nonlinear_arith)
        requires
            q * n <= sum,
            sum == avg * executed + price * quantity,
            n == executed + quantity,
            n > 0,
            executed >= 0,
            quantity >= 0,
    ;
}

/// The shortfall of a buyer who paid more than the benchmark, in basis points,
/// is how much more they paid as part of it; that of a seller who got less is
/// how much less.
pub proof fn law_shortfall_is_part(e: AdaptiveExecutor, avg: int)
    requires
        e.benchmark_price.units > 0,
        fits(avg),
        -0x7fff_ffff_ffff_ffff < e.shortfall(avg) < 0x7fff_ffff_ffff_ffff,
    ensures
        e.is_buy && avg >= e.benchmark_price.units ==> e.shortfall(avg) * e.benchmark_price.units
            <= (avg - e.benchmark_price.units) * 1_000_000_000_000 < e.shortfall(avg)
            * e.benchmark_price.units + e.benchmark_price.units,
        !e.is_buy && avg <= e.benchmark_price.units ==> e.shortfall(avg) * e.benchmark_price.units
            <= (e.benchmark_price.units - avg) * 1_000_000_000_000 < e.shortfall(avg)
            * e.benchmark_price.units + e.benchmark_price.units,
{
    let b = e.benchmark_price.units as int;
    law_division_cuts_off((avg - b) * 1_000_000_000_000, b);
    law_division_cuts_off((b - avg) * 1_000_000_000_000, b);
}

/// A fill is counted in full up to what is left; the order is over exactly when
/// nothing is left.
pub proof fn law_reserve_order_counts_fill(o: ReserveOrder, qty: i64, now: u64)
    requires
        o.sound(),
        o.is_active,
        o.left() > 0,
        0 <= qty,
        o.fill_in_range(qty),
    ensures
        ({
            let n = o.after_fill(qty, now);
            &&& qty <= o.left() ==> n.filled_qty == o.filled_qty + qty
            &&& qty >= o.left() ==> n.filled_qty == o.total_qty
            &&& n.is_active <==> n.filled_qty < n.total_qty
            &&& n.last_fill_us == now
            &&& n.total_qty == o.total_qty
            &&& n.display_qty == o.display_qty
            &&& n.hidden_qty <= n.total_qty - n.filled_qty
            &&& n.total_qty - n.filled_qty >= o.display_qty && o.hidden_qty <= n.total_qty
                - n.filled_qty ==> n.hidden_qty == o.hidden_qty
        }),
{
}

/// Under pressure above the threshold the price moves in favour of the fill: up
/// for a buyer, down for a seller, by the same offset, which never exceeds the
/// highest one. At a scale of one and up to three times the threshold the
/// offset is in proportion to the pressure, and beyond it stays.
pub proof fn law_discretion_by_pressure(m: DiscretionaryManager, base: i64, pressure: i64)
    requires
        m.pressure_threshold > 0,
        m.base_offset >= 0,
        m.vol_scale == 1_000_000,
        m.base_offset <= 0x1fff_ffff_ffff_ffff,
    ensures
        pressure > m.pressure_threshold ==> {
            let up = m.price_for(base, true, pressure) - base;
            let down = base - m.price_for(base, false, pressure);
            &&& up == down
            &&& up <= m.max_offset
            &&& pressure <= 3 * m.pressure_threshold && up < m.max_offset ==> up
                * m.pressure_threshold <= m.base_offset * pressure < (up + 1) * m.pressure_threshold
            &&& pressure >= 3 * m.pressure_threshold && up < m.max_offset ==> up == 3
                * m.base_offset
        },
        -m.pressure_threshold <= pressure <= m.pressure_threshold ==> m.price_for(
            base,
            true,
            pressure,
        ) == base && m.price_for(base, false, pressure) == base,
        pressure > -0x8000_0000_0000_0000 ==> m.offset_for((-pressure) as i64) == m.offset_for(
            pressure,
        ),
{
    let t = m.pressure_threshold as int;
    let b = m.base_offset as int;
    if pressure > t {
        let p = if pressure as int <= 3 * t {
            pressure as int
        } else {
            3 * t
        };
        let x = b * p;
        assert(b * p * 1_000_000 == x * 1_000_000);
        assert(x >= 0) by (nonlinear_arith)
            requires
                x == b * p,
                b >= 0,
                p >= 0,
        ;
        law_division_cuts_off(x * 1_000_000, t * 1_000_000);
        let q = truncated_div(x * 1_000_000, t * 1_000_000);
        assert(q * (t * 1_000_000) == (q * t) * 1_000_000) by (nonlinear_arith);
        assert(q * t <= x < q * t + t);
        assert((q + 1) * t == q * t + t) by (nonlinear_arith);
        assert(q <= 3 * b) by (nonlinear_arith)
            requires
                q * t <= x,
                x == b * p,
                p <= 3 * t,
                t > 0,
                b >= 0,
        ;
        if p == 3 * t {
            assert(q == 3 * b) by (nonlinear_arith)
                requires
                    q * t <= x < q * t + t,
                    x == b * (3 * t),
                    t > 0,
            ;
        }
    }
}

/// A smoothed rate moves from the old one towards the observed one by the part
/// given in millionths.
pub proof fn law_rate_moves_towards_observed(rate: int, observed: int, speed: int)
    requires
        rate >= 0,
        observed >= 0,
        0 <= speed <= 1_000_000,
    ensures
        smoothed(rate, observed, speed) * 1_000_000 <= rate * 1_000_000 + (observed - rate) * speed
            < smoothed(rate, observed, speed) * 1_000_000 + 1_000_000,
        smoothed(rate, observed, 0) == rate,
        smoothed(rate, observed, 1_000_000) == observed,
{
    let x = rate * (1_000_000 - speed) + observed * speed;
    assert(x == rate * 1_000_000 + (observed - rate) * speed) by (nonlinear_arith)
        requires
            x == rate * (1_000_000 - speed) + observed * speed,
    ;
    assert(x >= 0) by (nonlinear_arith)
        requires
            x == rate * (1_000_000 - speed) + observed * speed,
            rate >= 0,
            observed >= 0,
            0 <= speed <= 1_000_000,
    ;
    law_division_cuts_off(x, 1_000_000);
    assert(observed * 0 == 0) by (nonlinear_arith);
    assert(rate * 0 == 0) by (nonlinear_arith);
    law_division_cuts_off(rate * 1_000_000, 1_000_000);
    law_division_cuts_off(observed * 1_000_000, 1_000_000);
}

/// The time to fill, in hundredths of a microsecond of a rate per second, is
/// what remains over the rate.
pub proof fn law_time_to_fill(remaining: int, rate: int)
    requires
        remaining > 0,
        rate > 0,
        time_to_fill(remaining, rate) < 0xffff_ffff_ffff_ffff,
    ensures
        time_to_fill(remaining, rate) * rate <= remaining * 10_000_000_000 < (time_to_fill(
            remaining,
            rate,
        ) + 1) * rate,
{
    let x = remaining * 10_000_000_000;
    let q = x / rate;
    assert(q * rate <= x < (q + 1) * rate) by (nonlinear_arith)
        requires
            rate > 0,
            q == x / rate,
    ;
}

/// A clip that fills too slowly grows with the time above the lowest, up to
/// three times it; one that fills in less than half of the time shrinks from
/// the highest, down to half of it; one in between is the middle.
pub proof fn law_clip_follows_time(a: DynamicClipAdjuster, time: int)
    requires
        0 <= a.min_clip,
        a.min_clip <= a.max_clip <= 0x1fff_ffff_ffff_ffff,
        a.target_time_us > 0,
        time >= 0,
    ensures
        time > a.target_time_us ==> a.clip_for(time) >= a.min_clip,
        time > a.target_time_us && time < 3 * a.target_time_us && a.clip_for(time) < a.max_clip
            ==> a.clip_for(time) * a.target_time_us <= a.min_clip * time < (a.clip_for(time) + 1)
            * a.target_time_us,
        time >= 3 * a.target_time_us && a.clip_for(time) < a.max_clip ==> a.clip_for(time) == 3
            * a.min_clip,
        4 * time <= a.target_time_us && time < a.target_time_us / 2 && a.clip_for(time)
            > a.min_clip ==> 2 * a.clip_for(time) <= a.max_clip < 2 * a.clip_for(time) + 2,
        4 * time > a.target_time_us && time < a.target_time_us / 2 && a.clip_for(time) > a.min_clip
            ==> a.clip_for(time) * a.target_time_us <= a.max_clip * (2 * time) < (a.clip_for(time)
            + 1) * a.target_time_us,
        a.target_time_us / 2 <= time <= a.target_time_us ==> 2 * a.clip_for(time) <= a.min_clip
            + a.max_clip < 2 * a.clip_for(time) + 2,
{
    let t = a.target_time_us as int;
    let low = a.min_clip as int;
    let high = a.max_clip as int;
    let x = low * time;
    let y = high * (2 * time);
    assert(x >= 0 && y >= 0) by (nonlinear_arith)
        requires
            x == low * time,
            y == high * (2 * time),
            low >= 0,
            high >= 0,
            time >= 0,
    ;
    law_division_cuts_off(x, t);
    law_division_cuts_off(y, t);
    law_division_cuts_off(high, 2);
    law_division_cuts_off(low + high, 2);
    let q = truncated_div(x, t);
    let r = truncated_div(y, t);
    assert((q + 1) * t == q * t + t) by (nonlinear_arith);
    assert((r + 1) * t == r * t + t) by (nonlinear_arith);
    if t < time < 3 * t {
        assert(low <= q <= 3 * low) by (nonlinear_arith)
            requires
                q * t <= x < q * t + t,
                x == low * time,
                t < time < 3 * t,
                low >= 0,
        ;
    }
    if 2 * time < t {
        assert(r <= high) by (nonlinear_arith)
            requires
                r * t <= y,
                y == high * (2 * time),
                2 * time < t,
                t > 0,
                time >= 0,
                high >= 0,
        ;
    }
}

/// The shown part of an order is the given part of it in millionths, at least
/// the smallest clip and at most the whole.
pub proof fn law_shown_part(m: ReserveOrderManager, total: i64, part: i64)
    requires
        0 <= part <= 1_000_000,
        0 <= m.default_min_clip <= total,
    ensures
        m.default_min_clip <= m.display(total, part) <= total,
        m.display(total, part) > m.default_min_clip ==> m.display(total, part) * 1_000_000 <= total
            * part < m.display(total, part) * 1_000_000 + 1_000_000,
        m.display(total, 1_000_000) == total,
        m.display(total, 0) == m.default_min_clip,
{
    let x = total * part;
    assert(0 <= x <= total * 1_000_000) by (nonlinear_arith)
        requires
            x == total * part,
            0 <= part <= 1_000_000,
            total >= 0,
    ;
    law_division_cuts_off(x, 1_000_000);
    law_division_cuts_off(total * 1_000_000, 1_000_000);
    assert(total * 0 == 0) by (nonlinear_arith);
    law_division_cuts_off(0, 1_000_000);
}

/// Under pressure above half a unit in millions a buyer pays more and a seller
/// accepts less, in proportion to the pressure up to twice that.
pub proof fn law_reserve_price_under_pressure(base: i64, pressure: i64, offset: i64)
    requires
        0 <= offset <= 0x1fff_ffff_ffff_ffff,
    ensures
        -500_000 <= pressure <= 500_000 ==> ReserveOrderManager::price_for(
            base,
            true,
            pressure,
            offset,
        ) == base && ReserveOrderManager::price_for(base, false, pressure, offset) == base,
        pressure > 500_000 ==> {
            let up = ReserveOrderManager::price_for(base, true, pressure, offset) - base;
            let down = base - ReserveOrderManager::price_for(base, false, pressure, offset);
            &&& up == down
            &&& pressure <= 1_000_000 ==> up * 500_000 <= offset * pressure < (up + 1) * 500_000
            &&& pressure >= 1_000_000 ==> up == 2 * offset
        },
{
    if pressure > 500_000 {
        let p = if pressure <= 1_000_000 {
            pressure as int
        } else {
            1_000_000
        };
        let x = offset * p;
        assert(0 <= x <= offset * 1_000_000) by (nonlinear_arith)
            requires
                x == offset * p,
                0 <= p <= 1_000_000,
                offset >= 0,
        ;
        law_division_cuts_off(x, 500_000);
    }
}

/// The depth that a buyer meets counts what rests at or above their price, and
/// what a seller meets counts what rests at or below.
pub proof fn law_depth_beyond(
    s: Seq<OrderBookLevel>,
    level: OrderBookLevel,
    is_buy: bool,
    target: Amount,
)
    ensures
        depth_beyond(Seq::empty(), is_buy, target) == 0,
        level.price.units == target.units ==> depth_beyond(s.push(level), is_buy, target)
            == depth_beyond(s, is_buy, target) + level.quantity.units,
        level.price.units > target.units ==> depth_beyond(s.push(level), true, target)
            == depth_beyond(s, true, target) + level.quantity.units && depth_beyond(
            s.push(level),
            false,
            target,
        ) == depth_beyond(s, false, target),
        level.price.units < target.units ==> depth_beyond(s.push(level), false, target)
            == depth_beyond(s, false, target) + level.quantity.units && depth_beyond(
            s.push(level),
            true,
            target,
        ) == depth_beyond(s, true, target),
{
    assert(s.push(level).drop_last() =~= s);
}

/// A buyer looks at the asks, a seller at the bids.
pub proof fn law_facing_side(o: DynamicIceberg, book: OrderBookSnapshot)
    ensures
        o.is_buy_side ==> o.facing_levels(book) == book.asks@,
        !o.is_buy_side ==> o.facing_levels(book) == book.bids@,
{
}

/// A fill is executed, and taken from the clip while more than dust is left of
/// it; otherwise the next clip comes out of what is hidden.
pub proof fn law_iceberg_takes_fill(o: DynamicIceberg, quantity: Amount, now: u64)
    requires
        0 <= quantity.units <= o.clip_remaining.units,
        0 <= o.executed_quantity.units,
        o.executed_quantity.units + o.clip_remaining.units + o.hidden_quantity.units
            == o.total_quantity.units,
        o.hidden_quantity.units >= 0,
        o.visible_size.units > 0,
        o.clips_executed < u64::MAX,
    ensures
        ({
            let n = o.after_fill(quantity, now);
            let left = o.clip_remaining.units - quantity.units;
            &&& n.executed_quantity.units == o.executed_quantity.units + quantity.units
            &&& n.last_fill_ts == now
            &&& left > 100_000 ==> n.clip_remaining.units == left && n.hidden_quantity
                == o.hidden_quantity && n.clips_executed == o.clips_executed
            &&& left <= 100_000 && o.hidden_quantity.units > 100_000 ==> {
                &&& n.clips_executed == o.clips_executed + 1
                &&& n.clip_remaining.units + n.hidden_quantity.units == o.hidden_quantity.units
                &&& n.clip_remaining.units <= o.visible_size.units
                &&& n.hidden_quantity.units == 0 || n.clip_remaining.units == o.visible_size.units
            }
            &&& left <= 100_000 && o.hidden_quantity.units <= 100_000 ==> n.clip_remaining.units
                == o.total_quantity.units - n.executed_quantity.units
        }),
{
}

/// A rate is smoothed by seven tenths of the old and three tenths of the latest
/// one, which is the quantity per second.
pub proof fn law_smoothed_rate(rate: int, quantity: int, seconds: int)
    requires
        0 <= rate <= 0x7fff_ffff_ffff_ffff,
        0 <= quantity,
        seconds > 0,
        quantity * seconds <= 0x7fff_ffff_ffff_ffff,
    ensures
        10 * smoothed_rate(rate, quantity * seconds, seconds * 1_000_000_000) <= 7 * rate + 3
            * quantity < 10 * smoothed_rate(rate, quantity * seconds, seconds * 1_000_000_000) + 10,
{
    let x = quantity * seconds * 1_000_000_000;
    let e = seconds * 1_000_000_000;
    assert(x == quantity * e) by (nonlinear_arith)
        requires
            x == quantity * seconds * 1_000_000_000,
            e == seconds * 1_000_000_000,
    ;
    assert(x >= 0 && quantity <= quantity * seconds) by (nonlinear_arith)
        requires
            x == quantity * seconds * 1_000_000_000,
            quantity >= 0,
            seconds > 0,
    ;
    crate::base::rounding::law_division_unique(x, e, quantity);
    law_division_cuts_off(7 * rate + 3 * quantity, 10);
}

/// A clip grows to at most twice its size before a deep book, shrinks to a
/// fiftieth before a thin one, and is a fifth of the depth in between; it
/// shrinks by a fifth where fills come at more than twice the target rate, and
/// grows by a fifth where they come at less than half of it.
pub proof fn law_clip_sizes(size: int, depth: int, rate: int, target: int)
    requires
        size > 0,
        depth >= 0,
        target > 0,
        rate >= 0,
    ensures
        depth >= 10 * size ==> DynamicIceberg::size_for_depth(size, depth) == 2 * size,
        10 * depth <= size ==> 50 * DynamicIceberg::size_for_depth(size, depth) <= size < 50
            * DynamicIceberg::size_for_depth(size, depth) + 50,
        10 * depth > size && depth < 10 * size ==> 5 * DynamicIceberg::size_for_depth(size, depth)
            <= depth < 5 * DynamicIceberg::size_for_depth(size, depth) + 5,
        rate > 2 * target ==> 5 * DynamicIceberg::size_for_rate(size, rate, target) <= 4 * size < 5
            * DynamicIceberg::size_for_rate(size, rate, target) + 5,
        2 * rate < target ==> 5 * DynamicIceberg::size_for_rate(size, rate, target) <= 6 * size < 5
            * DynamicIceberg::size_for_rate(size, rate, target) + 5,
        target <= 2 * rate <= 4 * target ==> DynamicIceberg::size_for_rate(size, rate, target)
            == size,
        depth >= 10 * size ==> IcebergOrder::size_for_depth(size, depth) == size,
        depth <= size ==> 10 * IcebergOrder::size_for_depth(size, depth) <= size < 10
            * IcebergOrder::size_for_depth(size, depth) + 10,
        size < depth < 10 * size ==> 10 * IcebergOrder::size_for_depth(size, depth) <= depth < 10
            * IcebergOrder::size_for_depth(size, depth) + 10,
{
    law_division_cuts_off(4 * size, 5);
    law_division_cuts_off(6 * size, 5);
}

/// A level has the size of an earlier one where they differ by less than a
/// tenth of it.
pub proof fn law_same_size(level: OrderBookLevel, earlier: OrderBookLevel)
    requires
        level.quantity.units >= 100_000,
    ensures
        same_size(level, earlier) <==> 10 * (earlier.quantity.units - level.quantity.units)
            < level.quantity.units && 10 * (level.quantity.units - earlier.quantity.units)
            < level.quantity.units,
{
}

/// The quantity that a side took counts the trades it started, and no others.
pub proof fn law_taken_by(s: Seq<TradeFlowRecord>, t: TradeFlowRecord, side: AggressorSide)
    ensures
        taken_by(Seq::empty(), side) == 0,
        t.aggressor_side == side ==> taken_by(s.push(t), side) == taken_by(s, side)
            + t.quantity.units,
        t.aggressor_side != side ==> taken_by(s.push(t), side) == taken_by(s, side),
{
    assert(s.push(t).drop_last() =~= s);
}

/// Where buyers took more than seven tenths, there is a hidden seller; where
/// they took less than three tenths, a hidden buyer; otherwise neither.
pub proof fn law_one_sided_flow(buys: int, sells: int, mid: Amount)
    requires
        buys >= 0,
        sells >= 0,
        buys + sells >= 100_000,
        buys + sells <= 0x7fff_ffff_ffff_ffff,
    ensures
        10 * buys > 7 * (buys + sells) ==> {
            let s = flow_signal(buys, sells, mid);
            &&& s.len() == 1
            &&& !s[0].is_buy_side
            &&& s[0].price_level == mid
            &&& s[0].detection_method == HiddenLiquidityMethod::OrderFlowImbalance
            &&& 2 * s[0].estimated_hidden_qty.units <= buys - sells < 2
                * s[0].estimated_hidden_qty.units + 2
            &&& s[0].confidence.units * (buys + sells) <= (buys - sells) * 100_000_000
                < s[0].confidence.units * (buys + sells) + (buys + sells)
        },
        10 * buys < 3 * (buys + sells) ==> {
            let s = flow_signal(buys, sells, mid);
            &&& s.len() == 1
            &&& s[0].is_buy_side
            &&& s[0].price_level == mid
            &&& s[0].detection_method == HiddenLiquidityMethod::OrderFlowImbalance
            &&& 2 * s[0].estimated_hidden_qty.units <= sells - buys < 2
                * s[0].estimated_hidden_qty.units + 2
            &&& s[0].confidence.units * (buys + sells) <= (sells - buys) * 100_000_000
                < s[0].confidence.units * (buys + sells) + (buys + sells)
        },
        3 * (buys + sells) <= 10 * buys <= 7 * (buys + sells) ==> flow_signal(
            buys,
            sells,
            mid,
        ).len() == 0,
{
    let n = buys + sells;
    let d = if buys >= sells {
        buys - sells
    } else {
        sells - buys
    };
    assert(-0x8000_0000_0000_0000 * n <= d * 100_000_000 <= 0x7fff_ffff_ffff_ffff * n)
        by (nonlinear_arith)
        requires
            n > 0,
            0 <= d <= n,
    ;
    law_ratio(d, n);
    law_division_cuts_off(d, 2);
}

/// A level is unusual where fewer than five orders hold more than ten units
/// each, and the signal of one tells its price and side and half its quantity.
pub proof fn law_unusual_level(s: Seq<OrderBookLevel>, level: OrderBookLevel, buy: bool)
    requires
        level.order_count > 0,
    ensures
        unusual(level) <==> level.order_count < 5 && level.quantity.units > 1_000_000_000
            * level.order_count,
        unusual(level) ==> anomaly_signals(s.push(level), buy) == anomaly_signals(s, buy).push(
            anomaly_signal(level, buy),
        ),
        !unusual(level) ==> anomaly_signals(s.push(level), buy) == anomaly_signals(s, buy),
        unusual(level) ==> {
            let x = anomaly_signal(level, buy);
            &&& x.price_level == level.price
            &&& x.is_buy_side == buy
            &&& x.detection_method == HiddenLiquidityMethod::SizeAnomaly
            &&& 2 * x.estimated_hidden_qty.units <= level.quantity.units < 2
                * x.estimated_hidden_qty.units + 2
            &&& x.confidence.units <= 100_000_000
        },
{
    assert(s.push(level).drop_last() =~= s);
    let q = level.quantity.units as int;
    let c = 100 * (level.order_count as int);
    if unusual(level) {
        assert(0 <= q / c <= q) by (nonlinear_arith)
            requires
                q >= 0,
                c >= 100,
        ;
    }
}

/// No signal is stronger than the strongest, and of equally strong ones it is
/// the last.
pub proof fn law_strongest_signal(s: Seq<HiddenLiquiditySignal>, i: int, j: int)
    requires
        is_strongest(s, i),
        0 <= j < s.len(),
    ensures
        s[j].confidence.units <= s[i].confidence.units,
        s[j].confidence.units == s[i].confidence.units ==> j <= i,
{
}

/// A slice is due once its interval has passed since the last one, while the
/// order is active and something is left.
pub proof fn law_slice_comes_due(t: TwapExecutor, now: u64)
    requires
        now >= t.last_execution_ts,
    ensures
        t.is_active && t.remaining() > 0 && now - t.last_execution_ts >= t.slice_interval_ms
            * 1_000_000 ==> t.due(now),
        now - t.last_execution_ts < t.slice_interval_ms * 1_000_000 ==> !t.due(now),
        !t.is_active || t.remaining() <= 0 ==> !t.due(now),
{
}

/// Slices times their quantity are the executed quantity, but for part of one.
pub proof fn law_slices_done(t: TwapExecutor)
    requires
        t.slice_quantity.units > 0,
        t.executed_quantity.units >= 0,
        t.slices_done() < 0xffff_ffff,
    ensures
        t.slices_done() * t.slice_quantity.units <= t.executed_quantity.units < (t.slices_done()
            + 1) * t.slice_quantity.units,
{
    let x = t.executed_quantity.units as int;
    let s = t.slice_quantity.units as int;
    law_division_cuts_off(x, s);
    let q = truncated_div(x, s);
    assert((q + 1) * s == q * s + s) by (nonlinear_arith);
}

/// The slices of an order, taken together, are the order but for less than one
/// unit each.
pub proof fn law_slices_make_up_order(t: TwapExecutor)
    requires
        t.wf(),
        t.total_quantity.units >= 0,
    ensures
        t.slice_quantity.units * t.num_slices <= t.total_quantity.units < t.slice_quantity.units
            * t.num_slices + t.num_slices,
{
    law_division_cuts_off(t.total_quantity.units as int, t.num_slices as int);
}

/// The status of an order tells what was executed and what is left; the two
/// make up the whole. Progress is in percent.
pub proof fn law_status_tells_progress(t: TwapExecutor, v: VwapExecutor, now: u64)
    requires
        0 <= t.executed_quantity.units <= t.total_quantity.units,
        0 <= v.executed_quantity.units <= v.total_quantity.units,
    ensures
        ({
            let s = t.status_at(now);
            &&& s.total_quantity == t.total_quantity
            &&& s.executed_quantity == t.executed_quantity
            &&& s.executed_quantity.units + s.remaining_quantity.units == s.total_quantity.units
            &&& s.progress_pct.units == progress_pct(
                t.executed_quantity.units as int,
                t.total_quantity.units as int,
            ) as i64
            &&& s.total_slices == t.num_slices
        }),
        ({
            let s = v.status_at(now);
            &&& s.total_quantity == v.total_quantity
            &&& s.executed_quantity == v.executed_quantity
            &&& s.executed_quantity.units + s.remaining_quantity.units == s.total_quantity.units
            &&& s.progress_pct.units == progress_pct(
                v.executed_quantity.units as int,
                v.total_quantity.units as int,
            ) as i64
        }),
{
}

/// Progress in percent is a hundred times what was executed over the whole.
pub proof fn law_progress_in_percent(executed: int, total: int)
    requires
        0 <= executed <= total,
        total > 0,
    ensures
        progress_pct(executed, total) * total <= executed * 10_000_000_000 < progress_pct(
            executed,
            total,
        ) * total + total,
        progress_pct(total, total) == 10_000_000_000,
        progress_pct(0, total) == 0,
{
    let x = 100 * executed;
    assert(-0x8000_0000_0000_0000 * total <= x * 100_000_000 <= 0x7fff_ffff_ffff_ffff * total
        && 100 * total * 100_000_000 <= 0x7fff_ffff_ffff_ffff * total) by (nonlinear_arith)
        requires
            total > 0,
            x == 100 * executed,
            0 <= executed <= total,
    ;
    assert(-0x8000_0000_0000_0000 * total <= 0) by (nonlinear_arith)
        requires
            total > 0,
    ;
    law_ratio(x, total);
    law_ratio(100 * total, total);
    law_ratio(0, total);
    let r = share(100 * total, total);
    assert(r == 10_000_000_000) by (nonlinear_arith)
        requires
            r * total <= 100 * total * 100_000_000 < r * total + total,
            total > 0,
    ;
}

/// An order partly executed completes after as long as the whole takes at the
/// same pace; otherwise at its end.
pub proof fn law_completion_at_pace(executed: int, total: int, elapsed: int, end: u64)
    requires
        elapsed >= 0,
        completion(executed, total, elapsed, end) < 0xffff_ffff_ffff_ffff,
    ensures
        0 < executed < total ==> completion(executed, total, elapsed, end) * executed <= elapsed
            * total < (completion(executed, total, elapsed, end) + 1) * executed,
        executed <= 0 || executed >= total ==> completion(executed, total, elapsed, end) == end,
{
    if 0 < executed < total {
        let x = elapsed * total;
        let q = x / executed;
        assert(q * executed <= x < (q + 1) * executed) by (nonlinear_arith)
            requires
                executed > 0,
                q == x / executed,
        ;
    }
}

/// A later time is earlier plus duration, held at the last there is.
pub proof fn law_later(now: u64, duration: int)
    ensures
        now + duration <= 0xffff_ffff_ffff_ffff ==> later(now, duration) == now + duration,
        now + duration > 0xffff_ffff_ffff_ffff ==> later(now, duration) == 0xffff_ffff_ffff_ffff,
{
}

/// A bucket gets the part of the quantity that its weight is of all weights.
pub proof fn law_bucket_gets_its_part(v: VwapExecutor, quantity: int, bucket: int)
    requires
        v.wf(),
        0 <= bucket < v.volume_profile@.len(),
        quantity >= 0,
    ensures
        v.allotted(quantity, bucket) * v.profile_sum <= quantity * v.volume_profile@[bucket].units
            < v.allotted(quantity, bucket) * v.profile_sum + v.profile_sum,
{
    let w = v.volume_profile@[bucket].units as int;
    assert(quantity * w >= 0) by (nonlinear_arith)
        requires
            quantity >= 0,
            w >= 0,
    ;
    law_division_cuts_off(quantity * w, v.profile_sum as int);
}

/// The weights of a profile add up.
pub proof fn law_weights_add_up(s: Seq<Amount>, w: Amount)
    ensures
        weight_sum(Seq::empty()) == 0,
        weight_sum(s.push(w)) == weight_sum(s) + w.units,
{
    assert(s.push(w).drop_last() =~= s);
}

/// An order is behind its profile where less was executed than the weights so
/// far ask for.
pub proof fn law_behind_profile(v: VwapExecutor)
    requires
        v.wf(),
        v.total_quantity.units >= 0,
        v.current_bucket < v.volume_profile@.len(),
    ensures
        v.behind_profile() <==> v.executed_quantity.units * v.profile_sum < weight_sum(
            v.volume_profile@.take(v.current_bucket + 1),
        ) * v.total_quantity.units,
{
}

/// A fill of the shown clip is executed; once the clip is used up, the next
/// comes out of what is hidden.
pub proof fn law_plain_iceberg_takes_fill(o: IcebergOrder, quantity: Amount)
    requires
        0 <= quantity.units <= o.clip_remaining.units,
        0 <= o.executed_quantity.units,
        o.executed_quantity.units + o.clip_remaining.units + o.hidden_quantity.units
            == o.total_quantity.units,
        o.hidden_quantity.units >= 0,
        o.visible_size.units > 0,
        o.clips_executed < u64::MAX,
    ensures
        ({
            let n = o.after_fill(quantity);
            let left = o.clip_remaining.units - quantity.units;
            &&& n.executed_quantity.units == o.executed_quantity.units + quantity.units
            &&& n.executed_quantity.units + n.clip_remaining.units + n.hidden_quantity.units
                == o.total_quantity.units
            &&& left > 0 ==> n.clip_remaining.units == left && n.clips_executed == o.clips_executed
            &&& left == 0 && o.hidden_quantity.units > 0 ==> n.clips_executed == o.clips_executed
                + 1 && n.clip_remaining.units <= o.visible_size.units && (n.hidden_quantity.units
                == 0 || n.clip_remaining.units == o.visible_size.units)
        }),
{
}

/// The next slice is never more than what is left; it is a whole slice while
/// that much is left, and otherwise all that is.
pub proof fn law_next_slice(t: TwapExecutor)
    requires
        t.slice_quantity.units > 0,
    ensures
        t.remaining() >= t.slice_quantity.units ==> t.next_slice() == t.slice_quantity.units,
        0 <= t.remaining() <= t.slice_quantity.units ==> t.next_slice() == t.remaining(),
        t.remaining() <= 0 ==> t.next_slice() == 0,
{
}

/// A slice by volume is wanted only of an active order that is behind its
/// profile and has something left, while the market trades; it takes its part of
/// the market's volume, and never more than is left.
pub proof fn law_next_slice_by_volume(v: VwapExecutor, market: int, rate: int)
    requires
        market >= 0,
        rate >= 0,
        market * rate <= 0x7fff_ffff_ffff_ffff * 100_000_000,
    ensures
        v.wants_slice(market) <==> v.is_active && v.remaining() > 0 && market > 0
            && v.behind_profile(),
        v.remaining() <= 0 ==> v.next_slice(market, rate) == 0,
        v.remaining() >= 0 ==> 0 <= v.next_slice(market, rate) <= v.remaining(),
        v.remaining() > v.next_slice(market, rate) && v.remaining() >= 0 ==> v.next_slice(
            market,
            rate,
        ) * 100_000_000 <= market * rate < (v.next_slice(market, rate) + 1) * 100_000_000,
{
    assert(market * rate >= 0) by (nonlinear_arith)
        requires
            market >= 0,
            rate >= 0,
    ;
    crate::base::rounding::law_product(market, rate);
}

/// The next bucket gets its part of what is left; after the last there is none.
pub proof fn law_next_bucket(v: VwapExecutor)
    requires
        v.wf(),
        v.remaining() >= 0,
        v.volume_profile@.len() > 0,
    ensures
        v.current_bucket + 1 < v.num_buckets ==> {
            let n = v.in_next_bucket();
            &&& n.current_bucket == v.current_bucket + 1
            &&& n.bucket_target.units * v.profile_sum <= v.remaining()
                * v.volume_profile@[n.current_bucket as int].units < n.bucket_target.units
                * v.profile_sum + v.profile_sum
            &&& n.executed_quantity == v.executed_quantity
            &&& n.total_quantity == v.total_quantity
        },
        v.current_bucket + 1 >= v.num_buckets ==> v.in_next_bucket() == v,
{
    if v.current_bucket + 1 < v.num_buckets {
        let b = v.current_bucket + 1;
        law_bucket_gets_its_part(v, v.remaining(), b);
        let r = v.remaining();
        let w = v.volume_profile@[b].units as int;
        let sum = v.profile_sum as int;
        let a = v.allotted(r, b);
        lemma_weight_within_sum(v.volume_profile@, b);
        law_division_cuts_off(r * w, sum);
        assert(r * w >= 0) by (nonlinear_arith)
            requires
                r >= 0,
                w >= 0,
        ;
        assert(0 <= a <= r) by (nonlinear_arith)
            requires
                a * sum <= r * w,
                w <= sum,
                sum > 0,
                r >= 0,
                a >= 0,
        ;
    }
}

proof fn lemma_weight_within_sum(s: Seq<Amount>, i: int)
    requires
        crate::execution::twap_vwap::no_negative(s),
        0 <= i < s.len(),
    ensures
        s[i].units <= weight_sum(s),
        weight_sum(s) >= 0,
    decreases s.len(),
{
    let d = s.drop_last();
    assert(crate::execution::twap_vwap::no_negative(d)) by {
        assert forall|j: int| 0 <= j < d.len() implies (#[trigger] d[j]).units >= 0 by {
            assert(d[j] == s[j]);
        }
    }
    assert(s[s.len() - 1].units >= 0);
    if d.len() > 0 {
        if i < d.len() {
            lemma_weight_within_sum(d, i);
            assert(d[i] == s[i]);
        } else {
            lemma_weight_within_sum(d, 0);
        }
    } else {
        assert(weight_sum(d) == 0);
    }
}

/// An iceberg shows its visible size, or what is left of less.
pub proof fn law_shown_tip(o: IcebergOrder)
    ensures
        o.shown() <= o.visible_size.units,
        o.shown() <= o.remaining(),
        o.shown() == o.visible_size.units || o.shown() == o.remaining(),
{
}

/// Bids weigh on the side of buying and asks on that of selling: the volumes are
/// told each for its own side, and a book with only bids leans to them entirely.
pub proof fn law_book_weighed(
    bids: Seq<(Amount, Amount)>,
    asks: Seq<(Amount, Amount)>,
    levels: usize,
    r: OrderBookImbalance,
)
    requires
        weighs_book(bids, asks, levels, r),
        r.bid_volume.units >= 0,
        r.ask_volume.units >= 0,
    ensures
        bids.len() <= levels && fits(volume(bids)) ==> r.bid_volume.units == volume(bids),
        asks.len() <= levels && fits(volume(asks)) ==> r.ask_volume.units == volume(asks),
        r.bid_volume.units > 0 && r.ask_volume.units == 0 ==> r.imbalance_ratio.units
            == 100_000_000,
        r.bid_volume.units == 0 && r.ask_volume.units > 0 ==> r.imbalance_ratio.units
            == -100_000_000,
        r.bid_volume.units >= r.ask_volume.units ==> r.imbalance_ratio.units >= 0,
        r.bid_volume.units <= r.ask_volume.units ==> r.imbalance_ratio.units <= 0,
{
    let b = r.bid_volume.units as int;
    let a = r.ask_volume.units as int;
    if a + b > 0 {
        law_imbalance_is_part(b, a);
        law_imbalance_is_part(a, b);
    }
}

/// A fill adds to what was executed, and the average and the shortfall are those
/// of all fills.
pub proof fn law_fill_moves_average(e: AdaptiveExecutor, quantity: Amount, price: Amount)
    requires
        fits(e.executed_quantity.units + quantity.units),
        e.executed_quantity.units >= 0,
        quantity.units > 0,
        fits(e.shortfall(price.units as int)),
    ensures
        e.after_fill(quantity, price).executed_quantity.units == e.executed_quantity.units
            + quantity.units,
        e.after_fill(quantity, price).target_quantity == e.target_quantity,
        e.executed_quantity.units == 0 ==> e.after_fill(quantity, price).avg_price == price
            && e.after_fill(quantity, price).impl_shortfall_bps.units == e.shortfall(
            price.units as int,
        ),
        e.after_fill(quantity, price).avg_price.units == average_after(
            e.avg_price.units as int,
            e.executed_quantity.units as int,
            price.units as int,
            quantity.units as int,
        ),
{
    let n = e.executed_quantity.units + quantity.units;
    crate::execution::adaptive_algos::law_average_between(
        e.avg_price.units as int,
        e.executed_quantity.units as int,
        price.units as int,
        quantity.units as int,
    );
    if e.executed_quantity.units == 0 {
        let p = price.units as int;
        assert(e.avg_price.units * 0 == 0) by (nonlinear_arith);
        law_division_cuts_off(p * n, n);
        let q = truncated_div(p * n, n);
        assert(p * n >= 0 <==> p >= 0) by (nonlinear_arith)
            requires
                n > 0,
        ;
        assert(q == p) by (nonlinear_arith)
            requires
                n > 0,
                p * n >= 0 ==> q * n <= p * n < q * n + n,
                p * n <= 0 ==> q * n - n < p * n <= q * n,
        ;
    }
}

/// A clip that is sized anew stays within its bounds; where nothing faces the
/// order, or nothing fills, it stays as it is.
pub proof fn law_clip_sized_within_bounds(
    o: DynamicIceberg,
    book: OrderBookSnapshot,
    price: Amount,
    rate: Amount,
)
    requires
        o.min_visible_size.units <= o.max_visible_size.units,
    ensures
        (o.is_buy_side && book.asks@.len() == 0) || (!o.is_buy_side && book.bids@.len() == 0)
            ==> o.sized_for_book(book, price) == o,
        (o.is_buy_side && book.asks@.len() > 0) || (!o.is_buy_side && book.bids@.len() > 0)
            ==> o.min_visible_size.units <= o.sized_for_book(book, price).visible_size.units
            <= o.max_visible_size.units,
        o.fill_rate.units <= 0 || rate.units <= 0 ==> o.sized_for_rate(rate) == o,
        o.fill_rate.units > 0 && rate.units > 0 ==> {
            let n = o.sized_for_rate(rate).visible_size.units;
            let s = DynamicIceberg::size_for_rate(
                o.visible_size.units as int,
                o.fill_rate.units as int,
                rate.units as int,
            );
            &&& o.min_visible_size.units <= n <= o.max_visible_size.units
            &&& o.min_visible_size.units <= s <= o.max_visible_size.units ==> n == s
        },
        o.shown() <= o.visible_size.units,
        o.shown() <= o.remaining(),
        o.shown() == o.visible_size.units || o.shown() == o.remaining(),
{
}

/// A level counts as refreshed by each of the earlier books that had one of the
/// same size at its place, five books back at most.
pub proof fn law_refreshes_counted(
    history: Seq<Vec<OrderBookLevel>>,
    place: int,
    level: OrderBookLevel,
    n: int,
)
    requires
        0 <= place,
        0 <= n < history.len() - 1,
    ensures
        refreshes(history, place, level, 0) == 0,
        0 <= refreshes(history, place, level, n) <= n,
        ({
            let earlier = history[history.len() - 2 - n]@;
            let more = refreshes(history, place, level, n + 1) - refreshes(history, place, level, n);
            &&& place < earlier.len() && same_size(level, earlier[place]) ==> more == 1
            &&& place >= earlier.len() || !same_size(level, earlier[place]) ==> more == 0
        }),
        books_back(1) == 0,
        books_back(2) == 1,
        books_back(5) == 4,
        n >= 5 ==> books_back(n) == 4,
    decreases n,
{
    if n > 0 {
        law_refreshes_counted(history, place, level, n - 1);
    }
}

/// A bid level that was refreshed twice or more is a sign of hidden quantity: at
/// its price, as much as it was refreshed with, and the surer the more often.
pub proof fn law_refreshed_level_is_sign(
    history: Seq<Vec<OrderBookLevel>>,
    s: Seq<OrderBookLevel>,
    level: OrderBookLevel,
)
    requires
        0 <= level.quantity.units <= 0x1000_0000_0000_0000,
    ensures
        refresh_signals(history, Seq::empty()).len() == 0,
        ({
            let n = refreshes(history, s.len() as int, level, books_back(history.len() as int));
            let before = refresh_signals(history, s);
            let after = refresh_signals(history, s.push(level));
            &&& n < 2 ==> after == before
            &&& n >= 2 ==> {
                &&& after.len() == before.len() + 1
                &&& after.drop_last() == before
                &&& after.last().price_level == level.price
                &&& after.last().is_buy_side
                &&& after.last().detection_method == HiddenLiquidityMethod::RefreshDetection
                &&& 5 * after.last().confidence.units == n * 100_000_000
                &&& after.last().estimated_hidden_qty.units == n * level.quantity.units
            }
        }),
{
    let n = refreshes(history, s.len() as int, level, books_back(history.len() as int));
    assert(s.push(level).drop_last() =~= s);
    lemma_refreshes_within(history, s.len() as int, level, books_back(history.len() as int));
    let q = level.quantity.units as int;
    assert(0 <= q * n <= 0x7fff_ffff_ffff_ffff && q * n == n * q) by (nonlinear_arith)
        requires
            0 <= q <= 0x1000_0000_0000_0000,
            0 <= n <= 4,
    ;
    if n >= 2 {
        assert(refresh_signals(history, s.push(level)).drop_last() =~= refresh_signals(history, s));
    }
}

proof fn lemma_refreshes_within(
    history: Seq<Vec<OrderBookLevel>>,
    place: int,
    level: OrderBookLevel,
    n: int,
)
    ensures
        0 <= refreshes(history, place, level, n),
        n >= 0 ==> refreshes(history, place, level, n) <= n,
        n < 0 ==> refreshes(history, place, level, n) == 0,
    decreases n,
{
    if n > 0 {
        lemma_refreshes_within(history, place, level, n - 1);
    }
}

/// Where a fill leaves less than is to be shown, the missing part comes out of
/// what is hidden, as far as there is any.
pub proof fn law_hidden_part_replenishes(o: ReserveOrder, qty: i64, now: u64)
    requires
        o.sound(),
        0 <= qty < o.left(),
        o.fill_in_range(qty),
    ensures
        ({
            let left = o.left() - qty;
            let missing = o.display_qty - left;
            let n = o.after_fill(qty, now);
            &&& missing > 0 && o.hidden_qty <= missing ==> n.hidden_qty == 0
            &&& missing > 0 && missing <= o.hidden_qty <= missing + left ==> n.hidden_qty
                == o.hidden_qty - missing
            &&& missing > 0 && o.hidden_qty >= missing + left ==> n.hidden_qty == left
        }),
{
}

/// Signs of hidden quantity come from refreshed bids where three books or more
/// were seen, from the flow of trades, and from unusual levels of both sides, ten
/// levels deep.
pub proof fn law_signs_gathered(
    history: Seq<Vec<OrderBookLevel>>,
    trades: Seq<TradeFlowRecord>,
    book: OrderBookSnapshot,
)
    requires
        book.bids@.len() <= 10,
        book.asks@.len() <= 10,
        trades.len() <= 50,
    ensures
        ({
            let flow = flow_signal(
                taken_by(trades, AggressorSide::Buy),
                taken_by(trades, AggressorSide::Sell),
                book.mid_price,
            );
            let levels = anomaly_signals(book.bids@, true) + anomaly_signals(book.asks@, false);
            &&& history.len() < 3 ==> all_signals(history, trades, book) == flow + levels
            &&& history.len() >= 3 ==> all_signals(history, trades, book) == refresh_signals(
                history,
                book.bids@,
            ) + (flow + levels)
        }),
{
}

} // verus!
