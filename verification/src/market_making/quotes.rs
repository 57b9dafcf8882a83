//! What quotes, spreads and cancellations mean to a market maker.

use vstd::prelude::*;
use crate::market_making::cancellation_manager::{
    CancellationManager, CancellationReason, CancellationStats,
};
use crate::market_making::spread_optimizer::SpreadOptimizer;
use crate::market_making::tick_quoter::{half_spread, rung, TickQuoter};

verus! {

/// The bid lies below the middle and the ask above it, each by half of the
/// spread in basis points, and each side keeps its own quantity.
pub proof fn law_quote_is_half_spread_away(
    q: TickQuoter,
    mid: u64,
    spread: u64,
    bid_qty: u64,
    ask_qty: u64,
    now: u64,
)
    requires
        spread <= 20_000,
        mid <= 0x7fff_ffff_ffff_ffff,
    ensures
        ({
            let n = q.quoted(mid, spread, bid_qty, ask_qty, now);
            &&& (mid - n.bid_price) * 20_000 <= mid * spread < (mid - n.bid_price + 1) * 20_000
            &&& (n.ask_price - mid) * 20_000 <= mid * spread < (n.ask_price - mid + 1) * 20_000
            &&& n.bid_price <= mid <= n.ask_price
            &&& n.bid_qty == bid_qty
            &&& n.ask_qty == ask_qty
            &&& n.spread_bps == spread
            &&& n.last_update_ns == now
            &&& n.is_active == q.is_active
        }),
{
    let x = mid * spread;
    assert(0 <= x <= mid * 20_000) by (nonlinear_arith)
        requires
            x == mid * spread,
            spread <= 20_000,
    ;
    assert(half_spread(mid, spread) == x / 20000);
}

/// A maker who is long quotes a wider bid and a narrower ask, so that they sell
/// rather than buy; one who is short the other way round; one who is flat quotes
/// both a little narrower, which without inventory is not at all.
pub proof fn law_inventory_leans_quotes(o: SpreadOptimizer, base: u64)
    ensures
        o.inventory > 0 ==> o.bid_spread(base) >= base && o.ask_spread(base) <= base,
        o.inventory < 0 ==> o.ask_spread(base) >= base && o.bid_spread(base) <= base,
        o.inventory == 0 ==> o.bid_spread(base) == base && o.ask_spread(base) == base,
        o.inventory > 0 && o.inventory * o.inventory_skew_bps <= 0xffff_ffff && base
            <= 0x7fff_ffff_ffff_ffff ==> (o.bid_spread(base) - base) * 1000 <= o.inventory
            * o.inventory_skew_bps < (o.bid_spread(base) - base + 1) * 1000,
        o.inventory > 0 && o.ask_spread(base) > 0 ==> (base - o.ask_spread(base)) * 2000
            <= o.inventory * o.inventory_skew_bps < (base - o.ask_spread(base) + 1) * 2000,
        o.inventory < 0 && -o.inventory * o.inventory_skew_bps <= 0xffff_ffff && base
            <= 0x7fff_ffff_ffff_ffff ==> (o.ask_spread(base) - base) * 1000 <= -o.inventory
            * o.inventory_skew_bps < (o.ask_spread(base) - base + 1) * 1000,
{
    let n = if o.inventory < 0 {
        -(o.inventory as int)
    } else {
        o.inventory as int
    };
    let w = n * o.inventory_skew_bps;
    assert(w >= 0) by (nonlinear_arith)
        requires
            w == n * o.inventory_skew_bps,
            n >= 0,
    ;
    if o.inventory == 0 {
        assert(w == 0) by (nonlinear_arith)
            requires
                w == n * o.inventory_skew_bps,
                n == 0,
        ;
    }
}

/// Inventory of either sign widens the spread, by a thousandth of its weight; a
/// queue that empties fast narrows it, one that empties slowly widens it by a
/// tenth, and a signal that fades widens it by up to a half.
pub proof fn law_spread_steps(o: SpreadOptimizer, spread: int)
    requires
        o.wf(),
        spread >= 0,
    ensures
        o.with_inventory() >= o.base_spread_bps,
        o.inventory == 0 ==> o.with_inventory() == o.base_spread_bps,
        o.inventory >= 0 ==> (o.with_inventory() - o.base_spread_bps) * 1000 <= o.inventory
            * o.inventory_skew_bps < (o.with_inventory() - o.base_spread_bps + 1) * 1000,
        o.queue_depletion_rate > 2000 ==> o.with_queue(spread) <= spread && (spread - o.with_queue(
            spread,
        )) * 5 <= spread && (spread - o.with_queue(spread)) * 100 <= o.queue_depletion_rate - 2000,
        o.queue_depletion_rate > 2000 ==> spread < (spread - o.with_queue(spread) + 1) * 5
            || o.queue_depletion_rate - 2000 < (spread - o.with_queue(spread) + 1) * 100,
        o.queue_depletion_rate < 500 ==> (o.with_queue(spread) - spread) * 10 <= spread < (
        o.with_queue(spread) - spread + 1) * 10,
        500 <= o.queue_depletion_rate <= 2000 ==> o.with_queue(spread) == spread,
        o.alpha_decay_factor == 1000 ==> o.with_decay(spread) == spread,
        o.alpha_decay_factor == 0 ==> 2 * (o.with_decay(spread) - spread) <= spread < 2 * (
        o.with_decay(spread) - spread) + 2,
        (o.with_decay(spread) - spread) * 2000 <= (1000 - o.alpha_decay_factor) * spread,
{
    let n = if o.inventory < 0 {
        -(o.inventory as int)
    } else {
        o.inventory as int
    };
    let w = n * o.inventory_skew_bps;
    assert(w >= 0 && (n == 0 ==> w == 0)) by (nonlinear_arith)
        requires
            w == n * o.inventory_skew_bps,
            n >= 0,
    ;
    let d = (1000 - o.alpha_decay_factor) * spread;
    assert(d >= 0) by (nonlinear_arith)
        requires
            d == (1000 - o.alpha_decay_factor) * spread,
            spread >= 0,
            o.alpha_decay_factor <= 1000,
    ;
    if o.alpha_decay_factor == 0 {
        assert(d == 1000 * spread);
        assert(o.with_decay(spread) - spread == d / 2000);
    }
}

/// What a fading signal adds to a spread is half of the spread for a signal
/// that is gone, and in proportion to what is gone of it.
pub proof fn law_fading_signal_widens(o: SpreadOptimizer, spread: int)
    requires
        o.wf(),
        spread >= 0,
    ensures
        (1000 - o.alpha_decay_factor) * spread < (o.with_decay(spread) - spread + 1) * 2000,
{
    let d = (1000 - o.alpha_decay_factor) * spread;
    if o.alpha_decay_factor < 1000 {
        assert(o.with_decay(spread) - spread == d / 2000);
    } else {
        assert(d <= 0) by (nonlinear_arith)
            requires
                d == (1000 - o.alpha_decay_factor) * spread,
                o.alpha_decay_factor >= 1000,
                spread >= 0,
        ;
    }
}

/// Spreads of an active maker take the volatility on top and stay between one
/// and a thousand basis points; an inactive maker quotes the base spread.
pub proof fn law_spread_takes_volatility(calm: SpreadOptimizer, moved: SpreadOptimizer, more: u64)
    requires
        calm.is_active,
        moved == (SpreadOptimizer {
            vol_adjustment_bps: (calm.vol_adjustment_bps + more) as u64,
            ..calm
        }),
        calm.vol_adjustment_bps + more <= 0xffff_ffff_ffff_ffff,
    ensures
        1 < calm.optimal_spread() && moved.optimal_spread() < 1000 ==> moved.optimal_spread()
            == calm.optimal_spread() + more,
        calm.optimal_spread() <= moved.optimal_spread(),
        1 <= calm.optimal_spread() <= 1000,
        (SpreadOptimizer { is_active: false, ..calm }).optimal_spread() == calm.base_spread_bps,
{
    assert(moved.with_inventory() == calm.with_inventory());
    let s = calm.with_inventory();
    assert(moved.with_queue(s) == calm.with_queue(s));
    let t = calm.with_queue(s);
    assert(moved.with_decay(t) == calm.with_decay(t));
}

/// Flow above the threshold is toxic, and comes before latency; latency above
/// its threshold is exploited; a manager that is disabled, halted or has used up
/// its cancellations sees no cause.
pub proof fn law_cause_of_cancellation(m: CancellationManager, vpin: u64, latency: u64)
    ensures
        ({
            let able = m.enabled && !m.emergency_halt && m.current_cancel_count
                < m.max_cancels_per_sec;
            &&& m.cause(vpin, latency) == Some(CancellationReason::ToxicFlow) <==> able && vpin
                > m.toxic_vpin_threshold
            &&& m.cause(vpin, latency) == Some(CancellationReason::LatencyArbitrage) <==> able
                && vpin <= m.toxic_vpin_threshold && latency > m.latency_threshold_ns
            &&& m.cause(vpin, latency) is None <==> !able || (vpin <= m.toxic_vpin_threshold
                && latency <= m.latency_threshold_ns)
        }),
{
}

/// A second after the last reset the count starts again; within it, it goes on.
pub proof fn law_count_starts_again(m: CancellationManager, now: u64)
    ensures
        now > m.last_reset_ns + 1_000_000_000 ==> m.counting(now).current_cancel_count == 0
            && m.counting(now).last_reset_ns == now,
        now <= m.last_reset_ns + 1_000_000_000 ==> m.counting(now) == m,
        m.max_cancels_per_sec > 0 && !m.emergency_halt && now > m.last_reset_ns + 1_000_000_000
            ==> m.lets_through(now),
        m.current_cancel_count >= m.max_cancels_per_sec && now <= m.last_reset_ns + 1_000_000_000
            ==> !m.lets_through(now),
        m.emergency_halt ==> !m.lets_through(now),
{
}

/// A cancellation is counted once, under its own reason, and the average latency
/// is that of all of them.
pub proof fn law_cancellation_recorded(
    s: CancellationStats,
    reason: CancellationReason,
    latency: u64,
    now: u64,
)
    requires
        s.total_cancellations < u64::MAX,
        s.toxic_flow_cancels < u64::MAX,
        s.latency_arb_cancels < u64::MAX,
    ensures
        ({
            let r = s.recorded(reason, latency, now);
            let n = s.total_cancellations as int;
            &&& r.total_cancellations == n + 1
            &&& reason == CancellationReason::ToxicFlow ==> r.toxic_flow_cancels
                == s.toxic_flow_cancels + 1
            &&& reason != CancellationReason::ToxicFlow ==> r.toxic_flow_cancels
                == s.toxic_flow_cancels
            &&& reason == CancellationReason::LatencyArbitrage ==> r.latency_arb_cancels
                == s.latency_arb_cancels + 1
            &&& reason != CancellationReason::LatencyArbitrage ==> r.latency_arb_cancels
                == s.latency_arb_cancels
            &&& r.avg_latency_ns * (n + 1) <= s.avg_latency_ns * n + latency < (r.avg_latency_ns
                + 1) * (n + 1)
            &&& r.last_cancel_ns == now
        }),
{
    let n = s.total_cancellations as int;
    let x = s.avg_latency_ns * n + latency;
    let q = x / (n + 1);
    assert(0 <= q <= 0xffff_ffff_ffff_ffff && q * (n + 1) <= x < (q + 1) * (n + 1))
        by (nonlinear_arith)
        requires
            q == x / (n + 1),
            x == s.avg_latency_ns * n + latency,
            n >= 0,
    ;
}

/// Buys are quoted at the bid and sells at the ask.
pub proof fn law_quote_of_side(q: TickQuoter)
    ensures
        q.price_for(true) == q.bid_price,
        q.price_for(false) == q.ask_price,
{
}

/// Levels lie one tick apart: each bid a tick below the one before and each ask
/// a tick above, as far as prices go, and the first at the price itself.
pub proof fn law_levels_one_tick_apart(base: u64, qty: u64, tick: u64, i: int)
    requires
        i >= 0,
        (i + 1) * tick <= base,
        base + (i + 1) * tick <= u64::MAX,
    ensures
        rung(base, qty, tick, 0).bid_price == base,
        rung(base, qty, tick, 0).ask_price == base,
        rung(base, qty, tick, i).bid_price - rung(base, qty, tick, i + 1).bid_price == tick,
        rung(base, qty, tick, i + 1).ask_price - rung(base, qty, tick, i).ask_price == tick,
        rung(base, qty, tick, i).bid_qty == qty,
        rung(base, qty, tick, i).ask_qty == qty,
        rung(base, qty, tick, i).is_active,
{
    assert((i + 1) * tick == i * tick + tick) by (nonlinear_arith);
    assert(0 * tick == 0) by (nonlinear_arith);
    assert(i * tick >= 0) by (nonlinear_arith)
        requires
            i >= 0,
    ;
}

/// A cancellation that is let through is counted, in the second and in the
/// figures; one that is not is not. Under a halt nothing changes.
pub proof fn law_cancellation_counted(
    m: CancellationManager,
    reason: CancellationReason,
    latency: u64,
    now: u64,
)
    requires
        m.stats.total_cancellations < u64::MAX,
    ensures
        m.emergency_halt ==> m.after_request(reason, latency, now) == m,
        m.lets_through(now) ==> m.after_request(reason, latency, now).current_cancel_count
            == m.counting(now).current_cancel_count + 1 && m.after_request(
            reason,
            latency,
            now,
        ).stats == m.stats.recorded(reason, latency, now),
        !m.emergency_halt && !m.lets_through(now) ==> m.after_request(reason, latency, now).stats
            == m.stats && m.after_request(reason, latency, now).current_cancel_count == m.counting(
            now,
        ).current_cancel_count,
{
}

} // verus!
