//! Orders whose price follows the market, and orders that show part of their
//! size. Prices and quantities are in units of 1e-8.

use vstd::prelude::*;
use crate::base::amount::{magnitude, Amount, UNITS_PER_ONE};
use crate::base::numbers::{
    between, divide_truncated, fits, hold_between, quotient, saturate, saturated, smaller,
    truncated_div,
};
use crate::base::wide::divide_products;

verus! {

/// What the price of an order follows.
#[derive(Debug, Clone, Copy, PartialEq, Eq, Structural)]
pub enum PegType {
    MidPrice,
    PrimaryPeg,
    BestBid,
    BestAsk,
    FixedOffset,
}

/// An order whose price follows a reference.
#[derive(Debug, Clone, Copy, PartialEq, Eq, Structural)]
pub struct PeggedOrder {
    pub order_id: u64,
    pub peg_type: PegType,
    /// Added to the reference; may be negative.
    pub offset: i64,
    /// The lowest price, where positive.
    pub min_price: i64,
    /// The highest price, where positive.
    pub max_price: i64,
    pub size: i64,
    pub is_buy: bool,
    pub current_price: i64,
    pub last_update_us: u64,
    pub is_active: bool,
}

/// Prices of a market at one time.
#[derive(Debug, Clone, Copy, PartialEq, Eq, Structural)]
pub struct Quotes {
    pub mid: i64,
    pub bid: i64,
    pub ask: i64,
    pub primary: i64,
}

impl PeggedOrder {
    /// The price that the order follows.
    pub open spec fn reference(self, q: Quotes) -> i64 {
        match self.peg_type {
            PegType::MidPrice | PegType::FixedOffset => q.mid,
            PegType::PrimaryPeg => q.primary,
            PegType::BestBid => q.bid,
            PegType::BestAsk => q.ask,
        }
    }

    /// The reference with the offset, in whole ticks.
    pub open spec fn ticked(self, q: Quotes, tick: int) -> int {
        let p = self.reference(q) + self.offset;
        if tick > 0 {
            truncated_div(p, tick) * tick
        } else {
            p
        }
    }

    /// A price brought within the order's bounds.
    pub open spec fn bounded(self, p: int) -> int {
        let raised = if self.min_price > 0 && p < self.min_price {
            self.min_price as int
        } else {
            p
        };
        if self.max_price > 0 && raised > self.max_price {
            self.max_price as int
        } else {
            raised
        }
    }

    /// A price one tick short of the other side where it would meet it.
    pub open spec fn uncrossed(self, p: int, q: Quotes, tick: int) -> int {
        if self.is_buy && q.ask > 0 && p >= q.ask {
            q.ask - tick
        } else if !self.is_buy && q.bid > 0 && p <= q.bid {
            q.bid + tick
        } else {
            p
        }
    }

    /// The price to which the market pegs the order.
    pub open spec fn pegged(self, q: Quotes, tick: int) -> int {
        self.uncrossed(self.bounded(self.ticked(q, tick)), q, tick)
    }

    /// Whether a price is outside the order's bounds.
    pub open spec fn out_of_bounds(self, p: int) -> bool {
        (self.min_price > 0 && p < self.min_price) || (self.max_price > 0 && p > self.max_price)
    }

    /// The order once the market was seen at `now`: repriced, or no longer
    /// active where its bounds exclude the price.
    pub open spec fn repriced(self, q: Quotes, tick: int, now: u64) -> Self {
        if self.out_of_bounds(self.pegged(q, tick)) {
            PeggedOrder { is_active: false, ..self }
        } else {
            PeggedOrder {
                current_price: self.pegged(q, tick) as i64,
                last_update_us: now,
                ..self
            }
        }
    }
}

/// Prices orders, and counts what happened to them.
#[derive(Debug, Clone, Copy, PartialEq, Eq, Structural)]
pub struct PeggedOrderManager {
    pub active_count: u64,
    pub reprice_count: u64,
    pub bounds_cancel_count: u64,
    pub enabled: bool,
    pub tick_size: i64,
}

impl PeggedOrderManager {
    /// Whether orders are priced: the manager is enabled and the order active.
    pub open spec fn prices(self, order: PeggedOrder) -> bool {
        self.enabled && order.is_active
    }

    /// Whether no step of the pricing leaves the range of `i64`.
    pub open spec fn in_range(self, order: PeggedOrder, q: Quotes) -> bool {
        self.prices(order) ==> fits(order.reference(q) + order.offset) && fits(
            order.pegged(q, self.tick_size as int),
        )
    }

    /// The price given to an order: zero where it is not priced or leaves its
    /// bounds.
    pub open spec fn price_for(self, order: PeggedOrder, q: Quotes) -> int {
        let p = order.pegged(q, self.tick_size as int);
        if !self.prices(order) || order.out_of_bounds(p) {
            0
        } else {
            p
        }
    }

    /// The order once the market was seen at `now`.
    pub open spec fn order_after(self, order: PeggedOrder, q: Quotes, now: u64) -> PeggedOrder {
        if self.prices(order) {
            order.repriced(q, self.tick_size as int, now)
        } else {
            order
        }
    }

    /// The manager once it priced an order.
    pub open spec fn after_pricing(self, order: PeggedOrder, q: Quotes) -> Self {
        if !self.prices(order) {
            self
        } else if order.out_of_bounds(order.pegged(q, self.tick_size as int)) {
            PeggedOrderManager {
                active_count: self.active_count.wrapping_sub(1),
                bounds_cancel_count: self.bounds_cancel_count.wrapping_add(1),
                ..self
            }
        } else {
            PeggedOrderManager { reprice_count: self.reprice_count.wrapping_add(1), ..self }
        }
    }

    /// The manager once it made an order.
    pub open spec fn after_creation(self) -> Self {
        PeggedOrderManager { active_count: self.active_count.wrapping_add(1), ..self }
    }

    /// The manager once it cancelled an order.
    pub open spec fn after_cancel(self, order: PeggedOrder) -> Self {
        if order.is_active {
            PeggedOrderManager { active_count: self.active_count.wrapping_sub(1), ..self }
        } else {
            self
        }
    }

    /// An enabled manager.
    pub fn new(tick_size: i64) -> (m: Self)
        ensures
            m == (PeggedOrderManager {
                active_count: 0,
                reprice_count: 0,
                bounds_cancel_count: 0,
                enabled: true,
                tick_size,
            }),
    {
        PeggedOrderManager {
            active_count: 0,
            reprice_count: 0,
            bounds_cancel_count: 0,
            enabled: true,
            tick_size,
        }
    }

    /// An active order without a price.
    pub fn create_pegged_order(
        &mut self,
        order_id: u64,
        peg_type: PegType,
        offset: i64,
        min_price: i64,
        max_price: i64,
        size: i64,
        is_buy: bool,
    ) -> (r: PeggedOrder)
        ensures
            r == (PeggedOrder {
                order_id,
                peg_type,
                offset,
                min_price,
                max_price,
                size,
                is_buy,
                current_price: 0,
                last_update_us: 0,
                is_active: true,
            }),
            *final(self) == old(self).after_creation(),
    {
        let order = PeggedOrder {
            order_id,
            peg_type,
            offset,
            min_price,
            max_price,
            size,
            is_buy,
            current_price: 0,
            last_update_us: 0,
            is_active: true,
        };
        self.active_count = self.active_count.wrapping_add(1);
        order
    }

    /// Prices an order: the reference with its offset, in whole ticks, within
    /// the order's bounds and short of the other side. An order whose bounds
    /// exclude that price is no longer active.
    pub fn calculate_pegged_price(
        &mut self,
        order: &mut PeggedOrder,
        mid_price: i64,
        best_bid: i64,
        best_ask: i64,
        primary_price: i64,
        timestamp_us: u64,
    ) -> (r: i64)
        requires
            old(self).in_range(
                *old(order),
                Quotes {
                    mid: mid_price,
                    bid: best_bid,
                    ask: best_ask,
                    primary: primary_price,
                },
            ),
        ensures
            ({
                let q = Quotes {
                    mid: mid_price,
                    bid: best_bid,
                    ask: best_ask,
                    primary: primary_price,
                };
                &&& r == old(self).price_for(*old(order), q)
                &&& *final(order) == old(self).order_after(*old(order), q, timestamp_us)
                &&& *final(self) == old(self).after_pricing(*old(order), q)
            }),
    {
        let ghost q = Quotes {
            mid: mid_price,
            bid: best_bid,
            ask: best_ask,
            primary: primary_price,
        };
        if !order.is_active || !self.enabled {
            return 0;
        }
        let reference: i64 = match order.peg_type {
            PegType::MidPrice => mid_price,
            PegType::PrimaryPeg => primary_price,
            PegType::BestBid => best_bid,
            PegType::BestAsk => best_ask,
            PegType::FixedOffset => mid_price,
        };
        let mut price: i64 = reference + order.offset;
        let tick: i64 = self.tick_size;
        if tick > 0 {
            price = whole_ticks(price, tick);
        }
        assert(price == order.ticked(q, tick as int));
        if order.min_price > 0 && price < order.min_price {
            price = order.min_price;
        }
        if order.max_price > 0 && price > order.max_price {
            price = order.max_price;
        }
        assert(price == order.bounded(order.ticked(q, tick as int)));
        if order.is_buy && best_ask > 0 && price >= best_ask {
            price = best_ask - tick;
        }
        if !order.is_buy && best_bid > 0 && price <= best_bid {
            price = best_bid + tick;
        }
        if (order.min_price > 0 && price < order.min_price) || (order.max_price > 0 && price
            > order.max_price) {
            order.is_active = false;
            self.active_count = self.active_count.wrapping_sub(1);
            self.bounds_cancel_count = self.bounds_cancel_count.wrapping_add(1);
            return 0;
        }
        order.current_price = price;
        order.last_update_us = timestamp_us;
        self.reprice_count = self.reprice_count.wrapping_add(1);
        price
    }

    /// The price to report as the market moves: the new one where it is more than
    /// a tick away from the last.
    pub open spec fn news(self, order: PeggedOrder, q: Quotes) -> Option<i64> {
        let p = self.price_for(order, q);
        if p != 0 && magnitude(p - order.current_price) > self.tick_size {
            Some(p as i64)
        } else {
            None
        }
    }

    /// Prices an order as the market moves, and gives the price where it moved
    /// by more than a tick.
    pub fn update_on_market_move(
        &mut self,
        order: &mut PeggedOrder,
        mid_price: i64,
        best_bid: i64,
        best_ask: i64,
        primary_price: i64,
        timestamp_us: u64,
    ) -> (r: Option<i64>)
        requires
            old(self).in_range(
                *old(order),
                Quotes {
                    mid: mid_price,
                    bid: best_bid,
                    ask: best_ask,
                    primary: primary_price,
                },
            ),
        ensures
            ({
                let q = Quotes {
                    mid: mid_price,
                    bid: best_bid,
                    ask: best_ask,
                    primary: primary_price,
                };
                &&& r == old(self).news(*old(order), q)
                &&& *final(order) == old(self).order_after(*old(order), q, timestamp_us)
                &&& *final(self) == old(self).after_pricing(*old(order), q)
            }),
    {
        if !order.is_active {
            return None;
        }
        let old_price: i64 = order.current_price;
        let new_price: i64 = self.calculate_pegged_price(
            order,
            mid_price,
            best_bid,
            best_ask,
            primary_price,
            timestamp_us,
        );
        if new_price == 0 {
            return None;
        }
        let change: i128 = new_price as i128 - old_price as i128;
        let size: i128 = if change < 0 { -change } else { change };
        if size > self.tick_size as i128 {
            Some(new_price)
        } else {
            None
        }
    }

    /// Cancels an active order.
    pub fn cancel_order(&mut self, order: &mut PeggedOrder)
        ensures
            *final(order) == (PeggedOrder { is_active: false, ..*old(order) }),
            *final(self) == old(self).after_cancel(*old(order)),
    {
        if order.is_active {
            order.is_active = false;
            self.active_count = self.active_count.wrapping_sub(1);
        }
    }

    /// Sets the tick size.
    pub fn set_tick_size(&mut self, tick_size: i64)
        ensures
            *final(self) == (PeggedOrderManager { tick_size, ..*old(self) }),
    {
        self.tick_size = tick_size;
    }

    /// Enables or disables pricing.
    pub fn set_enabled(&mut self, enabled: bool)
        ensures
            *final(self) == (PeggedOrderManager { enabled, ..*old(self) }),
    {
        self.enabled = enabled;
    }

    /// Active orders, prices set, orders cancelled out of bounds, and whether
    /// pricing is enabled.
    pub fn get_stats(&self) -> (r: (u64, u64, u64, bool))
        ensures
            r == (self.active_count, self.reprice_count, self.bounds_cancel_count, self.enabled),
    {
        (self.active_count, self.reprice_count, self.bounds_cancel_count, self.enabled)
    }
}

impl Default for PeggedOrderManager {
    fn default() -> (m: Self)
        ensures
            m == (PeggedOrderManager {
                active_count: 0,
                reprice_count: 0,
                bounds_cancel_count: 0,
                enabled: true,
                tick_size: 1,
            }),
    {
        PeggedOrderManager::new(1)
    }
}

/// A price in whole ticks, towards zero.
fn whole_ticks(price: i64, tick: i64) -> (r: i64)
    requires
        tick > 0,
    ensures
        r == truncated_div(price as int, tick as int) * tick,
{
    let n: i128 = divide_truncated(price as i128, tick as u64);
    proof {
        let m = magnitude(price as int) as int;
        let t = tick as int;
        assert(0 <= (m / t) * t <= m) by (nonlinear_arith)
            requires
                t > 0,
                m >= 0,
        ;
        assert((-(m / t)) * t == -((m / t) * t)) by (nonlinear_arith);
        assert(n * tick == truncated_div(price as int, t) * t);
    }
    (n * tick as i128) as i64
}

/// How many of the orders are active.
pub open spec fn active_in(orders: Seq<PeggedOrder>) -> nat
    decreases orders.len(),
{
    if orders.len() == 0 {
        0
    } else {
        active_in(orders.drop_last()) + if orders.last().is_active {
            1nat
        } else {
            0
        }
    }
}

proof fn lemma_active_update(orders: Seq<PeggedOrder>, i: int, order: PeggedOrder)
    requires
        0 <= i < orders.len(),
    ensures
        active_in(orders.update(i, order)) + (if orders[i].is_active {
            1int
        } else {
            0
        }) == active_in(orders) + (if order.is_active {
            1int
        } else {
            0
        }),
    decreases orders.len(),
{
    if i < orders.len() - 1 {
        lemma_active_update(orders.drop_last(), i, order);
        assert(orders.update(i, order).drop_last() =~= orders.drop_last().update(i, order));
    } else {
        assert(orders.update(i, order).drop_last() =~= orders.drop_last());
    }
}

/// The active count stays the number of the made orders that are active: when
/// an order is made, priced or cancelled, also where it is cancelled because its
/// bounds exclude its price.
pub proof fn law_active_count(
    m: PeggedOrderManager,
    orders: Seq<PeggedOrder>,
    i: int,
    made: PeggedOrder,
    q: Quotes,
    now: u64,
)
    requires
        m.active_count == active_in(orders),
        m.active_count < u64::MAX,
        0 <= i < orders.len(),
        made.is_active,
    ensures
        m.after_creation().active_count == active_in(orders.push(made)),
        m.after_pricing(orders[i], q).active_count == active_in(
            orders.update(i, m.order_after(orders[i], q, now)),
        ),
        m.after_cancel(orders[i]).active_count == active_in(
            orders.update(i, PeggedOrder { is_active: false, ..orders[i] }),
        ),
{
    assert(orders.push(made).drop_last() =~= orders);
    lemma_active_update(orders, i, m.order_after(orders[i], q, now));
    lemma_active_update(orders, i, PeggedOrder { is_active: false, ..orders[i] });
}

/// A price that an order is given lies within the order's bounds.
pub proof fn law_price_within_bounds(m: PeggedOrderManager, order: PeggedOrder, q: Quotes)
    ensures
        m.price_for(order, q) != 0 ==> !order.out_of_bounds(m.price_for(order, q)),
{
}

/// With a positive tick, a buy order is priced below the best ask, and a sell
/// order above the best bid.
pub proof fn law_price_does_not_cross(m: PeggedOrderManager, order: PeggedOrder, q: Quotes)
    requires
        m.tick_size > 0,
        m.price_for(order, q) != 0,
    ensures
        order.is_buy && q.ask > 0 ==> m.price_for(order, q) < q.ask,
        !order.is_buy && q.bid > 0 ==> m.price_for(order, q) > q.bid,
{
}

/// An offset that grows by half the volatility, given in millionths.
pub open spec fn offset_in(volatility: u32, base_offset: i64) -> int {
    saturated(truncated_div(base_offset * (2_000_000 + volatility), 2_000_000))
}

/// An order that shows part of its size and may improve its price.
#[derive(Debug, Clone, Copy, PartialEq, Eq, Structural)]
pub struct DiscretionaryOrder {
    pub display_qty: i64,
    pub reserve_qty: i64,
    pub remaining_qty: i64,
    pub discretionary_offset: i64,
    pub trigger_threshold: i64,
    pub discretion_active: bool,
}

impl DiscretionaryOrder {
    /// An order of a shown and a hidden part.
    pub fn new(display_qty: i64, reserve_qty: i64, discretionary_offset: i64) -> (o: Self)
        requires
            fits(display_qty + reserve_qty),
        ensures
            o == (DiscretionaryOrder {
                display_qty,
                reserve_qty,
                remaining_qty: (display_qty + reserve_qty) as i64,
                discretionary_offset,
                trigger_threshold: 100_000,
                discretion_active: false,
            }),
    {
        DiscretionaryOrder {
            display_qty,
            reserve_qty,
            remaining_qty: display_qty + reserve_qty,
            discretionary_offset,
            trigger_threshold: 100_000,
            discretion_active: false,
        }
    }

    /// Whether market pressure calls for a better price.
    pub open spec fn triggered(self, pressure: i64) -> bool {
        magnitude(pressure as int) > self.trigger_threshold
    }

    /// The price under market pressure: a buyer pays the offset more, a seller
    /// accepts it less.
    pub open spec fn effective_price(self, base: i64, is_buy: bool, pressure: i64) -> int {
        if !self.triggered(pressure) {
            base as int
        } else if is_buy {
            base + self.discretionary_offset
        } else {
            base - self.discretionary_offset
        }
    }

    /// The price under market pressure.
    pub fn get_effective_price(&mut self, base_price: i64, is_buy: bool, market_pressure: i64) -> (r:
        i64)
        requires
            fits(old(self).effective_price(base_price, is_buy, market_pressure)),
        ensures
            r == old(self).effective_price(base_price, is_buy, market_pressure),
            *final(self) == (DiscretionaryOrder {
                discretion_active: old(self).triggered(market_pressure),
                ..*old(self)
            }),
    {
        let pressure: i128 = if market_pressure < 0 {
            -(market_pressure as i128)
        } else {
            market_pressure as i128
        };
        if pressure > self.trigger_threshold as i128 {
            self.discretion_active = true;
            if is_buy {
                base_price + self.discretionary_offset
            } else {
                base_price - self.discretionary_offset
            }
        } else {
            self.discretion_active = false;
            base_price
        }
    }

    /// How much of a fill the order takes.
    pub open spec fn filled(self, qty: i64) -> int {
        smaller(qty as int, self.remaining_qty as int)
    }

    /// The reserve once the order took a fill: it makes up what is missing of
    /// the shown size.
    pub open spec fn reserve_after(self, qty: i64) -> int {
        let left = self.remaining_qty - self.filled(qty);
        if self.display_qty > left {
            self.reserve_qty - smaller(self.display_qty - left, self.reserve_qty as int)
        } else {
            self.reserve_qty as int
        }
    }

    /// Fills part of the order, and tells how much.
    pub fn fill(&mut self, qty: i64) -> (r: i64)
        requires
            fits(old(self).remaining_qty - old(self).filled(qty)),
            fits(old(self).display_qty - (old(self).remaining_qty - old(self).filled(qty))),
        ensures
            r == old(self).filled(qty),
            *final(self) == (DiscretionaryOrder {
                remaining_qty: (old(self).remaining_qty - old(self).filled(qty)) as i64,
                reserve_qty: old(self).reserve_after(qty) as i64,
                ..*old(self)
            }),
            fits(old(self).reserve_after(qty)),
    {
        let filled: i64 = if qty <= self.remaining_qty { qty } else { self.remaining_qty };
        let left: i64 = self.remaining_qty - filled;
        self.remaining_qty = left;
        if self.display_qty > left {
            let needed: i64 = self.display_qty - left;
            let from_reserve: i64 = if needed <= self.reserve_qty {
                needed
            } else {
                self.reserve_qty
            };
            self.reserve_qty = self.reserve_qty - from_reserve;
        }
        filled
    }

    /// What is left to fill.
    pub fn remaining(&self) -> (r: i64)
        ensures
            r == self.remaining_qty,
    {
        self.remaining_qty
    }

    /// What the market sees.
    pub fn visible_qty(&self) -> (r: i64)
        ensures
            r == smaller(self.remaining_qty as int, self.display_qty as int),
    {
        if self.remaining_qty <= self.display_qty {
            self.remaining_qty
        } else {
            self.display_qty
        }
    }

    /// Whether nothing is left to fill.
    pub fn is_filled(&self) -> (r: bool)
        ensures
            r == (self.remaining_qty <= 0),
    {
        self.remaining_qty <= 0
    }

    /// Sets the offset to a base that grows by half the volatility, given in
    /// millionths.
    pub fn update_discretion(&mut self, volatility: u32, base_offset: i64)
        ensures
            *final(self) == (DiscretionaryOrder {
                discretionary_offset: offset_in(volatility, base_offset) as i64,
                ..*old(self)
            }),
    {
        let factor: i128 = 2_000_000 + volatility as i128;
        let base: i128 = base_offset as i128;
        assert(-0x8000_0000_0000_0000 * 0x2_0000_0000 <= base * factor <= 0x8000_0000_0000_0000
            * 0x2_0000_0000) by (nonlinear_arith)
            requires
                -0x8000_0000_0000_0000 <= base <= 0x8000_0000_0000_0000,
                0 <= factor <= 0x2_0000_0000,
        ;
        self.discretionary_offset = saturate(divide_truncated(base * factor, 2_000_000));
    }

    /// Sets the pressure above which the price improves.
    pub fn set_trigger_threshold(&mut self, threshold: i64)
        ensures
            *final(self) == (DiscretionaryOrder { trigger_threshold: threshold, ..*old(self) }),
    {
        self.trigger_threshold = threshold;
    }
}

/// A fill never takes more than is left, and what is filled and what remains
/// make up what was left before.
pub proof fn law_fill_conserves(o: DiscretionaryOrder, qty: i64)
    requires
        o.remaining_qty >= 0,
        qty >= 0,
    ensures
        0 <= o.filled(qty) <= o.remaining_qty,
        o.filled(qty) == qty || o.remaining_qty - o.filled(qty) == 0,
{
}

/// Sizes of the part of an order that is shown.
#[derive(Debug, Clone, Copy, PartialEq, Eq, Structural)]
pub struct ReserveOrderManager {
    pub default_clip: i64,
    pub min_clip: i64,
    pub max_clip: i64,
    /// In millionths.
    pub vol_adjustment: u32,
}

impl ReserveOrderManager {
    /// Sizes without adjustment.
    pub fn new(default_clip: i64, min_clip: i64, max_clip: i64) -> (m: Self)
        ensures
            m == (ReserveOrderManager {
                default_clip,
                min_clip,
                max_clip,
                vol_adjustment: 1_000_000,
            }),
    {
        ReserveOrderManager { default_clip, min_clip, max_clip, vol_adjustment: 1_000_000 }
    }

    /// The default size adjusted to the market: larger the more volatile it is
    /// and the longer the queue, up to two million in it, and smaller the wider
    /// the spread. Without a divisor it is the end of the range on its side.
    pub open spec fn adjusted_clip(self, volatility: int, spread_bps: int, queue: int) -> int {
        let moved = UNITS_PER_ONE + truncated_div(3 * volatility, 10);
        let queued = UNITS_PER_ONE + truncated_div(smaller(100 * queue, 200_000_000), 5);
        let narrow = UNITS_PER_ONE + truncated_div(spread_bps, 100);
        let size = self.default_clip * moved * queued;
        if narrow != 0 {
            saturated(quotient(size, 100_000_000 * narrow))
        } else if size > 0 {
            i64::MAX as int
        } else if size < 0 {
            i64::MIN as int
        } else {
            0
        }
    }

    /// The size to show, given the volatility, the spread in basis points and
    /// the queue: the default size adjusted to the market, within its bounds.
    pub fn calculate_clip(&self, volatility: Amount, spread_bps: Amount, queue_size: i64) -> (r:
        i64)
        ensures
            r == between(
                self.adjusted_clip(
                    volatility.units as int,
                    spread_bps.units as int,
                    queue_size as int,
                ),
                self.min_clip as int,
                self.max_clip as int,
            ),
    {
        let one: i128 = UNITS_PER_ONE as i128;
        let moved: i128 = one + divide_truncated(3 * volatility.units as i128, 10);
        let queue: i128 = 100 * queue_size as i128;
        let queued: i128 = one + divide_truncated(
            if queue <= 200_000_000 {
                queue
            } else {
                200_000_000
            },
            5,
        );
        let narrow: i128 = one + divide_truncated(spread_bps.units as i128, 100);
        let base: i128 = self.default_clip as i128;
        assert(-0x8000_0000_0000_0000 <= moved <= 0x8000_0000_0000_0000);
        assert(-0x8000_0000_0000_0000 * 0x8000_0000_0000_0000 <= base * moved
            <= 0x8000_0000_0000_0000 * 0x8000_0000_0000_0000) by (nonlinear_arith)
            requires
                -0x8000_0000_0000_0000 <= base <= 0x8000_0000_0000_0000,
                -0x8000_0000_0000_0000 <= moved <= 0x8000_0000_0000_0000,
        ;
        let shown: i128 = base * moved;
        let adjusted: i64 = if narrow != 0 {
            divide_products(shown, queued, 100_000_000, narrow)
        } else if shown == 0 || queued == 0 {
            assert(shown * queued == 0) by (nonlinear_arith)
                requires
                    shown == 0 || queued == 0,
            ;
            0
        } else if (shown < 0) == (queued < 0) {
            assert(shown * queued > 0) by (nonlinear_arith)
                requires
                    (shown < 0 && queued < 0) || (shown > 0 && queued > 0),
            ;
            i64::MAX
        } else {
            assert(shown * queued < 0) by (nonlinear_arith)
                requires
                    (shown < 0 && queued > 0) || (shown > 0 && queued < 0),
            ;
            i64::MIN
        };
        hold_between(adjusted, self.min_clip, self.max_clip)
    }

    /// Sets the volatility adjustment, in millionths: from a tenth to two.
    pub fn set_vol_adjustment(&mut self, factor: u32)
        ensures
            *final(self) == (ReserveOrderManager {
                vol_adjustment: between(factor as int, 100_000, 2_000_000) as u32,
                ..*old(self)
            }),
    {
        self.vol_adjustment =
        if factor < 100_000 {
            100_000
        } else if factor > 2_000_000 {
            2_000_000
        } else {
            factor
        };
    }

    /// The volatility adjustment, in millionths.
    pub fn get_vol_adjustment(&self) -> (r: u32)
        ensures
            r == self.vol_adjustment,
    {
        self.vol_adjustment
    }
}

} // verus!
