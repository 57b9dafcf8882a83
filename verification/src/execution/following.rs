//! What it means that an order follows the market, told from the quotes.

use vstd::prelude::*;
use crate::base::numbers::truncated_div;
use crate::base::rounding::law_division_cuts_off;
use crate::execution::pegged_orders::{
    offset_in, DiscretionaryOrder, PegType, PeggedOrder, PeggedOrderManager, Quotes, ReserveOrderManager,
};

verus! {

/// Whether a price does not meet the other side of the market.
pub open spec fn stands_clear(order: PeggedOrder, q: Quotes, price: int) -> bool {
    if order.is_buy {
        q.ask <= 0 || price < q.ask
    } else {
        q.bid <= 0 || price > q.bid
    }
}

/// Whether an order has no bounds.
pub open spec fn unbounded(order: PeggedOrder) -> bool {
    order.min_price <= 0 && order.max_price <= 0
}

/// With a tick of one unit, an order without bounds that does not meet the other
/// side is priced at the quote that its peg names, moved by its offset.
pub proof fn law_pegged_to_named_quote(m: PeggedOrderManager, order: PeggedOrder, q: Quotes)
    requires
        m.enabled,
        order.is_active,
        unbounded(order),
        m.tick_size == 1,
    ensures
        order.peg_type == PegType::BestAsk && stands_clear(order, q, q.ask + order.offset)
            ==> m.price_for(order, q) == q.ask + order.offset,
        order.peg_type == PegType::BestBid && stands_clear(order, q, q.bid + order.offset)
            ==> m.price_for(order, q) == q.bid + order.offset,
        order.peg_type == PegType::PrimaryPeg && stands_clear(order, q, q.primary + order.offset)
            ==> m.price_for(order, q) == q.primary + order.offset,
        order.peg_type == PegType::MidPrice && stands_clear(order, q, q.mid + order.offset)
            ==> m.price_for(order, q) == q.mid + order.offset,
        order.peg_type == PegType::FixedOffset && stands_clear(order, q, q.mid + order.offset)
            ==> m.price_for(order, q) == q.mid + order.offset,
{
    let p = order.reference(q) + order.offset;
    law_division_cuts_off(p, 1);
    assert(truncated_div(p, 1) * 1 == truncated_div(p, 1)) by (nonlinear_arith);
}

/// Without an offset, an order is priced exactly at the quote that its peg
/// names.
pub proof fn law_pegged_at_quote(m: PeggedOrderManager, order: PeggedOrder, q: Quotes)
    requires
        m.enabled,
        order.is_active,
        unbounded(order),
        m.tick_size == 1,
        order.offset == 0,
    ensures
        order.peg_type == PegType::BestAsk && stands_clear(order, q, q.ask as int) ==> m.price_for(
            order,
            q,
        ) == q.ask,
        order.peg_type == PegType::BestBid && stands_clear(order, q, q.bid as int) ==> m.price_for(
            order,
            q,
        ) == q.bid,
        order.peg_type == PegType::PrimaryPeg && stands_clear(order, q, q.primary as int)
            ==> m.price_for(order, q) == q.primary,
        order.peg_type == PegType::MidPrice && stands_clear(order, q, q.mid as int) ==> m.price_for(
            order,
            q,
        ) == q.mid,
        order.peg_type == PegType::FixedOffset && stands_clear(order, q, q.mid as int)
            ==> m.price_for(order, q) == q.mid,
{
    law_pegged_to_named_quote(m, order, q);
}

/// Where only the ask moves, a sell order pegged to it moves by as much; where
/// only the bid moves, a buy order pegged to it does.
pub proof fn law_peg_moves_with_quote(
    m: PeggedOrderManager,
    order: PeggedOrder,
    before: Quotes,
    after: Quotes,
)
    requires
        m.enabled,
        order.is_active,
        unbounded(order),
        m.tick_size == 1,
        after.mid == before.mid,
        after.primary == before.primary,
    ensures
        order.peg_type == PegType::BestAsk && !order.is_buy && after.bid == before.bid
            && stands_clear(order, before, before.ask + order.offset) && stands_clear(
            order,
            after,
            after.ask + order.offset,
        ) ==> m.price_for(order, after) - m.price_for(order, before) == after.ask - before.ask,
        order.peg_type == PegType::BestBid && order.is_buy && after.ask == before.ask
            && stands_clear(order, before, before.bid + order.offset) && stands_clear(
            order,
            after,
            after.bid + order.offset,
        ) ==> m.price_for(order, after) - m.price_for(order, before) == after.bid - before.bid,
{
    law_pegged_to_named_quote(m, order, before);
    law_pegged_to_named_quote(m, order, after);
}

/// The price of an order without bounds is a whole number of ticks, at most one
/// tick short of the reference moved by the offset.
pub proof fn law_price_in_whole_ticks(m: PeggedOrderManager, order: PeggedOrder, q: Quotes)
    requires
        m.enabled,
        order.is_active,
        unbounded(order),
        m.tick_size > 0,
        order.reference(q) + order.offset >= 0,
        stands_clear(order, q, order.ticked(q, m.tick_size as int)),
    ensures
        m.price_for(order, q) <= order.reference(q) + order.offset < m.price_for(order, q)
            + m.tick_size,
        exists|n: int| m.price_for(order, q) == #[trigger] (n * m.tick_size),
{
    let p = order.reference(q) + order.offset;
    let t = m.tick_size as int;
    law_division_cuts_off(p, t);
    assert(m.price_for(order, q) == truncated_div(p, t) * m.tick_size);
}

/// An order that would meet the other side is priced one tick short of it: a buy
/// order below the ask, a sell order above the bid.
pub proof fn law_price_held_short(m: PeggedOrderManager, order: PeggedOrder, q: Quotes)
    requires
        m.enabled,
        order.is_active,
        unbounded(order),
    ensures
        order.is_buy && q.ask > 0 && order.ticked(q, m.tick_size as int) >= q.ask ==> m.price_for(
            order,
            q,
        ) == q.ask - m.tick_size,
        !order.is_buy && q.bid > 0 && order.ticked(q, m.tick_size as int) <= q.bid ==> m.price_for(
            order,
            q,
        ) == q.bid + m.tick_size,
{
}

/// A price below the lowest is raised to it and one above the highest lowered to
/// it, where that does not meet the other side.
pub proof fn law_price_brought_within_bounds(m: PeggedOrderManager, order: PeggedOrder, q: Quotes)
    requires
        m.enabled,
        order.is_active,
        0 < order.min_price <= order.max_price,
    ensures
        order.ticked(q, m.tick_size as int) < order.min_price && stands_clear(
            order,
            q,
            order.min_price as int,
        ) ==> m.price_for(order, q) == order.min_price,
        order.ticked(q, m.tick_size as int) > order.max_price && stands_clear(
            order,
            q,
            order.max_price as int,
        ) ==> m.price_for(order, q) == order.max_price,
        order.min_price <= order.ticked(q, m.tick_size as int) <= order.max_price && stands_clear(
            order,
            q,
            order.ticked(q, m.tick_size as int),
        ) ==> m.price_for(order, q) == order.ticked(q, m.tick_size as int),
{
}

/// An order gets no price exactly where the manager is disabled, the order is
/// inactive, its bounds exclude the price or the price is zero. Where a price is
/// set, the order shows it and its time, and the manager counts it; where the
/// bounds exclude it, the order ends and the manager counts that.
pub proof fn law_pricing_leaves_its_trace(
    m: PeggedOrderManager,
    order: PeggedOrder,
    q: Quotes,
    now: u64,
)
    requires
        m.in_range(order, q),
        m.reprice_count < u64::MAX,
        m.bounds_cancel_count < u64::MAX,
    ensures
        !m.enabled || !order.is_active ==> m.price_for(order, q) == 0 && m.order_after(
            order,
            q,
            now,
        ) == order && m.after_pricing(order, q) == m,
        m.price_for(order, q) != 0 ==> {
            let o = m.order_after(order, q, now);
            &&& o.current_price == m.price_for(order, q)
            &&& o.last_update_us == now
            &&& o.is_active
            &&& m.after_pricing(order, q).reprice_count == m.reprice_count + 1
            &&& m.after_pricing(order, q).active_count == m.active_count
            &&& m.after_pricing(order, q).bounds_cancel_count == m.bounds_cancel_count
        },
        m.enabled && order.is_active && !m.order_after(order, q, now).is_active ==> {
            &&& m.price_for(order, q) == 0
            &&& m.order_after(order, q, now).current_price == order.current_price
            &&& m.after_pricing(order, q).bounds_cancel_count == m.bounds_cancel_count + 1
            &&& m.after_pricing(order, q).reprice_count == m.reprice_count
        },
        ({
            let o = m.order_after(order, q, now);
            &&& o.order_id == order.order_id
            &&& o.peg_type == order.peg_type
            &&& o.offset == order.offset
            &&& o.min_price == order.min_price
            &&& o.max_price == order.max_price
            &&& o.size == order.size
            &&& o.is_buy == order.is_buy
        }),
{
}

/// Under pressure above the threshold, of either sign, a buyer pays the offset
/// more and a seller accepts it less; otherwise the price stays.
pub proof fn law_discretion_improves_price(o: DiscretionaryOrder, base: i64, pressure: i64)
    ensures
        pressure > o.trigger_threshold || -pressure > o.trigger_threshold ==> o.effective_price(
            base,
            true,
            pressure,
        ) - base == o.discretionary_offset && base - o.effective_price(base, false, pressure)
            == o.discretionary_offset,
        pressure <= o.trigger_threshold && -pressure <= o.trigger_threshold ==> o.effective_price(
            base,
            true,
            pressure,
        ) == base && o.effective_price(base, false, pressure) == base,
        o.triggered(pressure) <==> pressure > o.trigger_threshold || -pressure
            > o.trigger_threshold,
{
}

/// A fill draws from the reserve what is missing of the shown size, as far as
/// the reserve reaches; while the shown size is left, it draws nothing.
pub proof fn law_reserve_makes_up_shown_size(o: DiscretionaryOrder, qty: i64)
    requires
        o.reserve_qty >= 0,
    ensures
        ({
            let left = o.remaining_qty - o.filled(qty);
            let drawn = o.reserve_qty - o.reserve_after(qty);
            &&& 0 <= drawn <= o.reserve_qty
            &&& left >= o.display_qty ==> drawn == 0
            &&& left < o.display_qty && o.display_qty - left <= o.reserve_qty ==> left + drawn
                == o.display_qty
            &&& left < o.display_qty && o.display_qty - left >= o.reserve_qty ==> drawn
                == o.reserve_qty
        }),
{
}

/// In a calm market without a spread and without a queue, the clip is the
/// default one.
pub proof fn law_calm_clip_is_default(m: ReserveOrderManager)
    ensures
        m.adjusted_clip(0, 0, 0) == m.default_clip,
{
    let c = m.default_clip as int;
    law_division_cuts_off(0, 10);
    law_division_cuts_off(0, 5);
    law_division_cuts_off(0, 100);
    assert(c * 100_000_000 * 100_000_000 == c * 10_000_000_000_000_000);
    law_division_cuts_off(c * 10_000_000_000_000_000, 10_000_000_000_000_000);
}

/// A new price is reported exactly where it lies more than a tick from the last,
/// on either side.
pub proof fn law_moved_price_reported(m: PeggedOrderManager, order: PeggedOrder, q: Quotes)
    requires
        m.in_range(order, q),
    ensures
        m.news(order, q) matches Some(p) ==> p == m.price_for(order, q) && (p - order.current_price
            > m.tick_size || order.current_price - p > m.tick_size),
        m.price_for(order, q) != 0 && m.price_for(order, q) > order.current_price + m.tick_size
            ==> m.news(order, q) is Some,
        m.price_for(order, q) != 0 && m.price_for(order, q) < order.current_price - m.tick_size
            ==> m.news(order, q) is Some,
        m.price_for(order, q) == 0 ==> m.news(order, q) is None,
{
}

/// An offset grows by half of the volatility; without any it stays.
pub proof fn law_offset_grows(volatility: u32, base: i64)
    requires
        0 <= base <= 0xffff_ffff_ffff,
    ensures
        offset_in(0, base) == base,
        offset_in(volatility, base) * 2_000_000 <= base * 2_000_000 + base * volatility
            < offset_in(volatility, base) * 2_000_000 + 2_000_000,
{
    let x = base * (2_000_000 + volatility);
    assert(x == base * 2_000_000 + base * volatility) by (nonlinear_arith)
        requires
            x == base * (2_000_000 + volatility),
    ;
    assert(0 <= x <= 0xffff_ffff_ffff * 0x1_0020_0000) by (nonlinear_arith)
        requires
            x == base * (2_000_000 + volatility),
            0 <= base <= 0xffff_ffff_ffff,
            0 <= volatility <= 0xffff_ffff,
    ;
    law_division_cuts_off(x, 2_000_000);
    law_division_cuts_off(base * 2_000_000, 2_000_000);
}

/// A clip grows by three tenths of the volatility.
pub proof fn law_clip_grows_with_volatility(m: ReserveOrderManager, tenth: int)
    requires
        m.default_clip >= 0,
        tenth >= 0,
        m.adjusted_clip(10 * tenth, 0, 0) < 0x7fff_ffff_ffff_ffff,
    ensures
        m.adjusted_clip(10 * tenth, 0, 0) * 100_000_000 <= m.default_clip * (100_000_000 + 3 * tenth)
            < m.adjusted_clip(10 * tenth, 0, 0) * 100_000_000 + 100_000_000,
{
    let c = m.default_clip as int;
    law_division_cuts_off(3 * (10 * tenth), 10);
    law_division_cuts_off(0, 5);
    law_division_cuts_off(0, 100);
    assert(truncated_div(3 * (10 * tenth), 10) == 3 * tenth);
    lemma_clip_scaled(c, 100_000_000 + 3 * tenth);
}

/// A clip grows by a fifth of the queue, counted in hundreds and up to two whole.
pub proof fn law_clip_grows_with_queue(m: ReserveOrderManager, queue: int)
    requires
        m.default_clip >= 0,
        queue >= 0,
        m.adjusted_clip(0, 0, queue) < 0x7fff_ffff_ffff_ffff,
    ensures
        queue <= 2_000_000 ==> m.adjusted_clip(0, 0, queue) * 100_000_000 <= m.default_clip * (
        100_000_000 + 20 * queue) < m.adjusted_clip(0, 0, queue) * 100_000_000 + 100_000_000,
        queue >= 2_000_000 ==> m.adjusted_clip(0, 0, queue) * 100_000_000 <= m.default_clip
            * 140_000_000 < m.adjusted_clip(0, 0, queue) * 100_000_000 + 100_000_000,
{
    let c = m.default_clip as int;
    law_division_cuts_off(0, 10);
    law_division_cuts_off(0, 100);
    if queue <= 2_000_000 {
        law_division_cuts_off(100 * queue, 5);
        assert(truncated_div(100 * queue, 5) == 20 * queue);
        lemma_clip_scaled(c, 100_000_000 + 20 * queue);
    }
    if queue >= 2_000_000 {
        law_division_cuts_off(200_000_000, 5);
        assert(truncated_div(200_000_000, 5) == 40_000_000);
        lemma_clip_scaled(c, 140_000_000);
    }
}

/// A clip shrinks as the spread widens, by a hundredth of it.
pub proof fn law_clip_shrinks_with_spread(m: ReserveOrderManager, wide: int)
    requires
        m.default_clip >= 0,
        wide >= 0,
    ensures
        m.adjusted_clip(0, 100 * wide, 0) * (100_000_000 + wide) <= m.default_clip * 100_000_000
            < m.adjusted_clip(0, 100 * wide, 0) * (100_000_000 + wide) + 100_000_000 + wide,
{
    let c = m.default_clip as int;
    let n = 100_000_000 + wide;
    law_division_cuts_off(0, 10);
    law_division_cuts_off(0, 5);
    law_division_cuts_off(100 * wide, 100);
    assert(truncated_div(100 * wide, 100) == wide);
    let size = c * 100_000_000 * 100_000_000;
    law_division_cuts_off(size, 100_000_000 * n);
    let q = truncated_div(size, 100_000_000 * n);
    let y = q * n;
    assert(q * (100_000_000 * n) == 100_000_000 * y) by (nonlinear_arith)
        requires
            y == q * n,
    ;
    assert(y <= c * 100_000_000 < y + n);
    assert(q <= c) by (nonlinear_arith)
        requires
            q * n <= c * 100_000_000,
            n >= 100_000_000,
            c >= 0,
            q >= 0,
    ;
}

proof fn lemma_clip_scaled(c: int, f: int)
    requires
        c >= 0,
        f >= 0,
    ensures
        ({
            let q = truncated_div(c * f * 100_000_000, 10_000_000_000_000_000);
            q >= 0 && q * 100_000_000 <= c * f < q * 100_000_000 + 100_000_000
        }),
        c * 100_000_000 * f == c * f * 100_000_000,
{
    let x = c * f;
    assert(x >= 0 && c * 100_000_000 * f == x * 100_000_000) by (nonlinear_arith)
        requires
            x == c * f,
            c >= 0,
            f >= 0,
    ;
    law_division_cuts_off(x * 100_000_000, 10_000_000_000_000_000);
}

} // verus!
