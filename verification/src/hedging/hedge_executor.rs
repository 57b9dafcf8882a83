//! Orders that bring a portfolio to its target delta.

use vstd::prelude::*;
use crate::base::amount::{magnitude, Amount, UNITS_PER_ONE};
use crate::base::clock::now_ns;
use crate::base::numbers::{divide_truncated, truncated_div};

verus! {

/// A target for the delta of one symbol.
#[derive(Debug, Clone, Copy, PartialEq, Eq, Structural)]
pub struct HedgeSignal {
    pub symbol_id: u32,
    pub target_delta: Amount,
    pub current_delta: Amount,
    pub timestamp_ns: u64,
}

/// Side of an order.
#[derive(Debug, Clone, Copy, PartialEq, Eq, Structural)]
pub enum Side {
    Buy,
    Sell,
}

/// How an order is priced.
#[derive(Debug, Clone, Copy, PartialEq, Eq, Structural)]
pub enum OrderType {
    Limit,
    Market,
    Pegged,
}

/// An order that hedges.
#[derive(Debug, Clone, Copy, PartialEq, Eq, Structural)]
pub struct HedgeOrder {
    pub symbol_id: u32,
    pub side: Side,
    pub quantity: i64,
    pub price_ticks: i64,
    pub order_type: OrderType,
    pub timestamp_ns: u64,
}

impl HedgeOrder {
    /// What the order does to the delta.
    pub open spec fn change(self) -> int {
        match self.side {
            Side::Buy => self.quantity as int,
            Side::Sell => -self.quantity,
        }
    }
}

/// Running delta of a portfolio: the sum of the changes, and the sum of their
/// sizes. Both wrap around at the ends of their range.
#[derive(Debug, Clone, Copy, PartialEq, Eq, Structural)]
pub struct DeltaTracker {
    pub net_delta: i64,
    pub gross_delta: i64,
    pub last_update_ns: u64,
}

impl DeltaTracker {
    /// A tracker at zero.
    pub fn new() -> (t: Self)
        ensures
            t == (DeltaTracker { net_delta: 0, gross_delta: 0, last_update_ns: 0 }),
    {
        DeltaTracker { net_delta: 0, gross_delta: 0, last_update_ns: 0 }
    }

    /// The tracker once a change was made at `now`.
    pub open spec fn updated(self, change: int, now: u64) -> Self {
        DeltaTracker {
            net_delta: self.net_delta.wrapping_add(change as i64),
            gross_delta: self.gross_delta.wrapping_add(magnitude(change) as i64),
            last_update_ns: now,
        }
    }

    /// Records a change made at `now`.
    pub fn update_at(&mut self, delta_change: i64, now: u64)
        requires
            delta_change > i64::MIN,
        ensures
            *final(self) == old(self).updated(delta_change as int, now),
    {
        let size: i64 = if delta_change < 0 { -delta_change } else { delta_change };
        self.net_delta = self.net_delta.wrapping_add(delta_change);
        self.gross_delta = self.gross_delta.wrapping_add(size);
        self.last_update_ns = now;
    }

    /// Records a change.
    pub fn update(&mut self, delta_change: i64)
        requires
            delta_change > i64::MIN,
        ensures
            *final(self) == old(self).updated(delta_change as int, final(self).last_update_ns),
    {
        let now: u64 = now_ns();
        self.update_at(delta_change, now);
    }

    /// The sum of the changes.
    pub fn get_net_delta(&self) -> (r: i64)
        ensures
            r == self.net_delta,
    {
        self.net_delta
    }

    /// The sum of the changes' sizes.
    pub fn get_gross_delta(&self) -> (r: i64)
        ensures
            r == self.gross_delta,
    {
        self.gross_delta
    }

    /// Whether the gross delta is at most a limit.
    pub open spec fn within(self, max_gross_delta: i64) -> bool {
        self.gross_delta <= max_gross_delta
    }

    /// Whether the gross delta is within a limit.
    pub fn is_within_limits(&self, max_gross_delta: i64) -> (r: bool)
        ensures
            r == self.within(max_gross_delta),
    {
        self.gross_delta <= max_gross_delta
    }
}

/// A smaller difference of deltas, in amount units, is noise: a thousandth.
pub const NOISE_UNITS: i64 = 100_000;

/// One contract is this part of a delta, in amount units: a ten-thousandth.
pub const CONTRACT_UNITS: u64 = 10_000;

/// The contracts that close a difference of deltas, given in amount units.
pub open spec fn contracts(diff: int) -> int {
    if magnitude(diff) < NOISE_UNITS {
        0
    } else {
        truncated_div(diff, CONTRACT_UNITS as int)
    }
}

/// A number of contracts in whole lots, each counted as the whole part of the
/// lot size, given in amount units. A fraction of a lot is left out; a negative
/// lot size completes it.
pub open spec fn in_lots(quantity: int, lot: int) -> int {
    if magnitude(lot) < UNITS_PER_ONE {
        0
    } else if lot > 0 {
        (quantity * UNITS_PER_ONE / lot) * (lot / UNITS_PER_ONE as int)
    } else {
        ((quantity * UNITS_PER_ONE - lot - 1) / -lot) * (-lot / UNITS_PER_ONE as int)
    }
}

/// A number of contracts in whole lots.
fn round_to_lots(quantity: u64, lot: i64) -> (r: i64)
    requires
        quantity <= 4_000_000_000_000_000,
    ensures
        r == in_lots(quantity as int, lot as int),
        0 <= r,
{
    let size: i128 = if lot < 0 { -(lot as i128) } else { lot as i128 };
    if size < UNITS_PER_ONE as i128 {
        return 0;
    }
    let scaled: i128 = quantity as i128 * UNITS_PER_ONE as i128;
    let lots: i128 = if lot > 0 { scaled / size } else { (scaled + size - 1) / size };
    let each: i128 = size / UNITS_PER_ONE as i128;
    proof {
        let s = size as int;
        let n = scaled as int;
        let l = lots as int;
        let e = each as int;
        let u = UNITS_PER_ONE as int;
        assert(0 <= l * s <= n + s) by (nonlinear_arith)
            requires
                s >= 1,
                n >= 0,
                l == n / s || l == (n + s - 1) / s,
        ;
        assert(l >= 0) by (nonlinear_arith)
            requires
                s >= 1,
                n >= 0,
                l == n / s || l == (n + s - 1) / s,
        ;
        assert(e * u <= s) by (nonlinear_arith)
            requires
                e == s / u,
                u == 100_000_000,
        ;
        assert(0 <= l * e * u <= l * s) by (nonlinear_arith)
            requires
                e * u <= s,
                l >= 0,
                e >= 0,
                u >= 0,
        ;
        assert(0 <= l * e <= 5_000_000_000_000_000) by (nonlinear_arith)
            requires
                0 <= l * e * u <= n + s,
                n <= 400_000_000_000_000_000_000_000,
                s <= 9_223_372_036_854_775_808,
                u == 100_000_000,
        ;
    }
    (lots * each) as i64
}

/// Turns signals into orders.
#[derive(Debug, Clone, Copy, PartialEq, Eq, Structural)]
pub struct HedgeExecutor {
    pub delta_tracker: DeltaTracker,
    pub tick_size: Amount,
    pub lot_size: Amount,
    pub max_slippage_ticks: i64,
}

/// The order for a signal at a price, where one is called for: the difference
/// is more than noise and makes a lot.
pub open spec fn hedge_order(lot: Amount, signal: HedgeSignal, price: i64) -> Option<HedgeOrder> {
    let wanted = contracts(signal.target_delta.units - signal.current_delta.units);
    let quantity = in_lots(magnitude(wanted) as int, lot.units as int);
    if quantity == 0 {
        None
    } else {
        Some(
            HedgeOrder {
                symbol_id: signal.symbol_id,
                side: if wanted > 0 {
                    Side::Buy
                } else {
                    Side::Sell
                },
                quantity: quantity as i64,
                price_ticks: price,
                order_type: OrderType::Limit,
                timestamp_ns: signal.timestamp_ns,
            },
        )
    }
}

/// The orders for signals, at the prices of their symbols; a symbol without a
/// price gets none.
pub open spec fn hedge_orders(lot: Amount, signals: Seq<HedgeSignal>, prices: Seq<i64>) -> Seq<
    HedgeOrder,
>
    decreases signals.len(),
{
    if signals.len() == 0 {
        Seq::empty()
    } else {
        let before = hedge_orders(lot, signals.drop_last(), prices);
        let s = signals.last();
        if s.symbol_id < prices.len() && hedge_order(
            lot,
            s,
            prices[s.symbol_id as int],
        ) is Some {
            before.push(hedge_order(lot, s, prices[s.symbol_id as int])->0)
        } else {
            before
        }
    }
}

/// A net delta once orders were made.
pub open spec fn net_after(net: i64, orders: Seq<HedgeOrder>) -> i64
    decreases orders.len(),
{
    if orders.len() == 0 {
        net
    } else {
        net_after(net, orders.drop_last()).wrapping_add(orders.last().change() as i64)
    }
}

/// A gross delta once orders were made.
pub open spec fn gross_after(gross: i64, orders: Seq<HedgeOrder>) -> i64
    decreases orders.len(),
{
    if orders.len() == 0 {
        gross
    } else {
        gross_after(gross, orders.drop_last()).wrapping_add(
            magnitude(orders.last().change()) as i64,
        )
    }
}

impl HedgeExecutor {
    /// An executor without exposure.
    pub fn new(tick_size: Amount, lot_size: Amount, max_slippage_ticks: i64) -> (e: Self)
        ensures
            e == (HedgeExecutor {
                delta_tracker: DeltaTracker { net_delta: 0, gross_delta: 0, last_update_ns: 0 },
                tick_size,
                lot_size,
                max_slippage_ticks,
            }),
    {
        HedgeExecutor {
            delta_tracker: DeltaTracker::new(),
            tick_size,
            lot_size,
            max_slippage_ticks,
        }
    }

    /// The order for a signal at a price, where one is called for.
    pub fn generate_hedge_order(&self, signal: &HedgeSignal, mid_price_ticks: i64) -> (r: Option<
        HedgeOrder,
    >)
        ensures
            r == hedge_order(self.lot_size, *signal, mid_price_ticks),
            r is Some ==> r->0.quantity > 0,
    {
        let diff: i128 = signal.target_delta.units as i128 - signal.current_delta.units as i128;
        let size: i128 = if diff < 0 { -diff } else { diff };
        if size < NOISE_UNITS as i128 {
            proof {
                law_noise_ignored(self.lot_size, *signal, mid_price_ticks);
            }
            return None;
        }
        let wanted: i128 = divide_truncated(diff, CONTRACT_UNITS);
        if wanted == 0 {
            return None;
        }
        let (side, quantity) = if wanted > 0 {
            (Side::Buy, wanted as u64)
        } else {
            (Side::Sell, (-wanted) as u64)
        };
        let adjusted: i64 = round_to_lots(quantity, self.lot_size.units);
        if adjusted == 0 {
            return None;
        }
        Some(
            HedgeOrder {
                symbol_id: signal.symbol_id,
                side,
                quantity: adjusted,
                price_ticks: mid_price_ticks,
                order_type: OrderType::Limit,
                timestamp_ns: signal.timestamp_ns,
            },
        )
    }

    /// Makes the orders for the signals, and tracks what they do to the delta.
    pub fn rebalance_portfolio(&mut self, signals: &[HedgeSignal], prices: &[i64]) -> (r: Vec<
        HedgeOrder,
    >)
        ensures
            r@ == hedge_orders(old(self).lot_size, signals@, prices@),
            final(self).delta_tracker.net_delta == net_after(
                old(self).delta_tracker.net_delta,
                r@,
            ),
            final(self).delta_tracker.gross_delta == gross_after(
                old(self).delta_tracker.gross_delta,
                r@,
            ),
            r@.len() == 0 ==> final(self).delta_tracker.last_update_ns == old(
                self,
            ).delta_tracker.last_update_ns,
            *final(self) == (HedgeExecutor {
                delta_tracker: final(self).delta_tracker,
                ..*old(self)
            }),
    {
        let mut orders: Vec<HedgeOrder> = Vec::new();
        let mut i: usize = 0;
        assert(signals@.take(0) =~= Seq::empty());
        while i < signals.len()
            invariant
                i <= signals@.len(),
                orders@ == hedge_orders(old(self).lot_size, signals@.take(i as int), prices@),
                self.delta_tracker.net_delta == net_after(
                    old(self).delta_tracker.net_delta,
                    orders@,
                ),
                self.delta_tracker.gross_delta == gross_after(
                    old(self).delta_tracker.gross_delta,
                    orders@,
                ),
                orders@.len() == 0 ==> self.delta_tracker.last_update_ns == old(
                    self,
                ).delta_tracker.last_update_ns,
                *self == (HedgeExecutor { delta_tracker: self.delta_tracker, ..*old(self) }),
            decreases signals@.len() - i,
        {
            let ghost before = orders@;
            assert(signals@.take(i + 1).drop_last() =~= signals@.take(i as int));
            let signal = &signals[i];
            let symbol: usize = signal.symbol_id as usize;
            if symbol < prices.len() {
                if let Some(order) = self.generate_hedge_order(signal, prices[symbol]) {
                    let delta_change: i64 = match order.side {
                        Side::Buy => order.quantity,
                        Side::Sell => -order.quantity,
                    };
                    self.delta_tracker.update(delta_change);
                    orders.push(order);
                    assert(orders@.drop_last() =~= before);
                }
            }
            i += 1;
        }
        assert(signals@.take(signals@.len() as int) =~= signals@);
        orders
    }

    /// Whether the gross delta is within a limit.
    pub fn check_risk_limits(&self, max_gross_delta: i64) -> (r: bool)
        ensures
            r == self.delta_tracker.within(max_gross_delta),
    {
        self.delta_tracker.is_within_limits(max_gross_delta)
    }

    /// The net delta.
    pub fn get_net_exposure(&self) -> (r: i64)
        ensures
            r == self.delta_tracker.net_delta,
    {
        self.delta_tracker.get_net_delta()
    }
}

/// With lots of one contract, an order moves the delta towards its target and
/// leaves less than one contract of difference.
pub proof fn law_order_closes_difference(signal: HedgeSignal, price: i64)
    requires
        magnitude(signal.target_delta.units - signal.current_delta.units) >= NOISE_UNITS,
    ensures
        hedge_order(Amount { units: UNITS_PER_ONE }, signal, price) is Some,
        magnitude(
            signal.target_delta.units - signal.current_delta.units - hedge_order(
                Amount { units: UNITS_PER_ONE },
                signal,
                price,
            )->0.change() * CONTRACT_UNITS,
        ) < CONTRACT_UNITS,
{
    let diff = signal.target_delta.units - signal.current_delta.units;
    let wanted = contracts(diff);
    let m = magnitude(wanted) as int;
    let u = UNITS_PER_ONE as int;
    assert((m * u / u) * (u / u) == m) by (nonlinear_arith)
        requires
            u == 100_000_000,
    ;
    assert(in_lots(m, u) == (m * u / u) * (u / u));
}

/// A signal whose difference is noise makes no order.
pub proof fn law_noise_ignored(lot: Amount, signal: HedgeSignal, price: i64)
    requires
        magnitude(signal.target_delta.units - signal.current_delta.units) < NOISE_UNITS,
    ensures
        hedge_order(lot, signal, price) is None,
{
    let l = lot.units as int;
    if l >= UNITS_PER_ONE {
        assert(0int * UNITS_PER_ONE / l == 0) by (nonlinear_arith)
            requires
                l >= 1,
        ;
    } else if -l >= UNITS_PER_ONE {
        assert((0int * UNITS_PER_ONE - l - 1) / -l == 0) by (nonlinear_arith)
            requires
                -l >= 1,
        ;
    }
}

/// How many orders a buffer holds.
pub const BUFFER_ORDERS: usize = 64;

/// Orders of one batch.
#[derive(Debug, Clone)]
pub struct HedgeOrderBuffer {
    pub buffer: Vec<HedgeOrder>,
}

impl HedgeOrderBuffer {
    /// At most 64 orders are held.
    pub open spec fn wf(&self) -> bool {
        self.buffer@.len() <= BUFFER_ORDERS
    }

    /// An empty buffer.
    pub fn new() -> (b: Self)
        ensures
            b.wf(),
            b.buffer@.len() == 0,
    {
        HedgeOrderBuffer { buffer: Vec::new() }
    }

    /// Adds an order where there is room.
    pub fn push(&mut self, order: HedgeOrder) -> (r: bool)
        requires
            old(self).wf(),
        ensures
            final(self).wf(),
            r == (old(self).buffer@.len() < BUFFER_ORDERS),
            final(self).buffer@ == (if r {
                old(self).buffer@.push(order)
            } else {
                old(self).buffer@
            }),
    {
        if self.buffer.len() >= BUFFER_ORDERS {
            return false;
        }
        self.buffer.push(order);
        true
    }

    /// Takes all orders out, first added first.
    pub fn drain(&mut self) -> (r: Vec<HedgeOrder>)
        ensures
            final(self).wf(),
            r@ == old(self).buffer@,
            final(self).buffer@.len() == 0,
    {
        let mut taken: Vec<HedgeOrder> = Vec::new();
        taken.append(&mut self.buffer);
        taken
    }

    /// How many orders are held.
    pub fn len(&self) -> (n: usize)
        ensures
            n == self.buffer@.len(),
    {
        self.buffer.len()
    }

    /// Drops all orders.
    pub fn clear(&mut self)
        ensures
            final(self).wf(),
            final(self).buffer@.len() == 0,
    {
        self.buffer.clear();
    }
}

impl Default for HedgeOrderBuffer {
    fn default() -> (b: Self)
        ensures
            b.wf(),
            b.buffer@.len() == 0,
    {
        HedgeOrderBuffer::new()
    }
}

} // verus!
