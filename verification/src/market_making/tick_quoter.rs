//! Quotes around a mid price.

use vstd::prelude::*;
use crate::base::clock::now_ns;

verus! {

/// A bid and an ask. Prices are scaled integers.
#[derive(Debug, Clone, Copy, PartialEq, Eq, Structural)]
pub struct TickQuoter {
    pub bid_price: u64,
    pub ask_price: u64,
    pub bid_qty: u64,
    pub ask_qty: u64,
    /// When the quote was last updated, in nanoseconds.
    pub last_update_ns: u64,
    pub spread_bps: u64,
    pub is_active: bool,
}

/// Half the spread in price units.
pub open spec fn half_spread(mid_price: u64, spread_bps: u64) -> int {
    mid_price * spread_bps / 20000
}

/// A price lowered by `d`, not below zero.
pub open spec fn lowered(p: u64, d: int) -> int {
    if d <= p {
        p - d
    } else {
        0
    }
}

/// A price raised by `d`, within the range of `u64`.
pub open spec fn raised(p: u64, d: int) -> int {
    if p + d <= u64::MAX {
        p + d
    } else {
        u64::MAX as int
    }
}

fn lower(p: u64, d: u128) -> (r: u64)
    ensures
        r == lowered(p, d as int),
{
    if d <= p as u128 {
        p - d as u64
    } else {
        0
    }
}

fn raise(p: u64, d: u128) -> (r: u64)
    ensures
        r == raised(p, d as int),
{
    if d <= (u64::MAX - p) as u128 {
        p + d as u64
    } else {
        u64::MAX
    }
}

impl TickQuoter {
    /// An active quoter.
    pub fn new(initial_bid: u64, initial_ask: u64, initial_qty: u64) -> (q: Self)
        ensures
            q == (TickQuoter {
                bid_price: initial_bid,
                ask_price: initial_ask,
                bid_qty: initial_qty,
                ask_qty: initial_qty,
                last_update_ns: 0,
                spread_bps: 0,
                is_active: true,
            }),
    {
        TickQuoter {
            bid_price: initial_bid,
            ask_price: initial_ask,
            bid_qty: initial_qty,
            ask_qty: initial_qty,
            last_update_ns: 0,
            spread_bps: 0,
            is_active: true,
        }
    }

    /// The quote around a mid price, made at `now`.
    pub open spec fn quoted(
        self,
        mid_price: u64,
        spread_bps: u64,
        bid_qty: u64,
        ask_qty: u64,
        now: u64,
    ) -> Self {
        TickQuoter {
            bid_price: lowered(mid_price, half_spread(mid_price, spread_bps)) as u64,
            ask_price: raised(mid_price, half_spread(mid_price, spread_bps)) as u64,
            bid_qty,
            ask_qty,
            last_update_ns: now,
            spread_bps,
            ..self
        }
    }

    /// Quotes around a mid price at `now`.
    pub fn update_quote_at(
        &mut self,
        mid_price: u64,
        spread_bps: u64,
        bid_qty: u64,
        ask_qty: u64,
        now: u64,
    )
        ensures
            *final(self) == old(self).quoted(mid_price, spread_bps, bid_qty, ask_qty, now),
    {
        assert(mid_price * spread_bps <= 0xffff_ffff_ffff_ffff * 0xffff_ffff_ffff_ffff)
            by (nonlinear_arith)
            requires
                mid_price <= 0xffff_ffff_ffff_ffff,
                spread_bps <= 0xffff_ffff_ffff_ffff,
        ;
        assert(mid_price * spread_bps >= 0) by (nonlinear_arith);
        let half: u128 = mid_price as u128 * spread_bps as u128 / 20000;
        self.bid_price = lower(mid_price, half);
        self.ask_price = raise(mid_price, half);
        self.bid_qty = bid_qty;
        self.ask_qty = ask_qty;
        self.spread_bps = spread_bps;
        self.last_update_ns = now;
    }

    /// Quotes around a mid price.
    pub fn update_quote(&mut self, mid_price: u64, spread_bps: u64, bid_qty: u64, ask_qty: u64)
        ensures
            *final(self) == old(self).quoted(
                mid_price,
                spread_bps,
                bid_qty,
                ask_qty,
                final(self).last_update_ns,
            ),
    {
        self.update_quote_at(mid_price, spread_bps, bid_qty, ask_qty, now_ns());
    }

    /// The bid.
    pub fn get_bid(&self) -> (p: u64)
        ensures
            p == self.bid_price,
    {
        self.bid_price
    }

    /// The ask.
    pub fn get_ask(&self) -> (p: u64)
        ensures
            p == self.ask_price,
    {
        self.ask_price
    }

    /// The spread in basis points.
    pub fn get_spread_bps(&self) -> (s: u64)
        ensures
            s == self.spread_bps,
    {
        self.spread_bps
    }

    /// Whether the quoter is active.
    pub fn is_active(&self) -> (r: bool)
        ensures
            r == self.is_active,
    {
        self.is_active
    }

    /// Activates or deactivates the quoter.
    pub fn set_active(&mut self, active: bool)
        ensures
            *final(self) == (TickQuoter { is_active: active, ..*old(self) }),
    {
        self.is_active = active;
    }

    /// The price that the maker pays, or the one they ask.
    pub open spec fn price_for(&self, is_buy: bool) -> u64 {
        if is_buy {
            self.bid_price
        } else {
            self.ask_price
        }
    }

    /// The price for a side.
    pub fn quote_for_side(&self, is_buy: bool) -> (p: u64)
        ensures
            p == self.price_for(is_buy),
    {
        if is_buy {
            self.get_bid()
        } else {
            self.get_ask()
        }
    }
}

/// A quote never stands on the wrong side of its mid price, and both sides are
/// equally far from it while they are in range.
pub proof fn law_quote_around_mid(q: TickQuoter, mid: u64, spread: u64, b: u64, a: u64, now: u64)
    ensures
        q.quoted(mid, spread, b, a, now).bid_price <= mid <= q.quoted(
            mid,
            spread,
            b,
            a,
            now,
        ).ask_price,
        half_spread(mid, spread) <= mid && mid + half_spread(mid, spread) <= u64::MAX ==> mid
            - q.quoted(mid, spread, b, a, now).bid_price == q.quoted(
            mid,
            spread,
            b,
            a,
            now,
        ).ask_price - mid,
{
    assert(mid * spread >= 0) by (nonlinear_arith);
}

/// A level so many ticks away from a price, on both sides.
pub open spec fn rung(base_price: u64, base_qty: u64, tick_size: u64, i: int) -> TickQuoter {
    TickQuoter {
        bid_price: lowered(base_price, i * tick_size) as u64,
        ask_price: raised(base_price, i * tick_size) as u64,
        bid_qty: base_qty,
        ask_qty: base_qty,
        last_update_ns: 0,
        spread_bps: 0,
        is_active: true,
    }
}

/// Quotes several levels.
pub struct BatchQuoter {
    pub levels: Vec<TickQuoter>,
    pub max_levels: usize,
}

impl BatchQuoter {
    /// Levels that stand further from the base price by one tick each.
    pub fn new(max_levels: usize, base_price: u64, base_qty: u64, tick_size: u64) -> (q: Self)
        ensures
            q.max_levels == max_levels,
            q.levels@.len() == max_levels,
            forall|i: int|
                0 <= i < max_levels ==> #[trigger] q.levels@[i] == rung(
                    base_price,
                    base_qty,
                    tick_size,
                    i,
                ),
    {
        let mut levels: Vec<TickQuoter> = Vec::new();
        let mut i: usize = 0;
        while i < max_levels
            invariant
                i <= max_levels,
                levels@.len() == i,
                forall|k: int|
                    0 <= k < i ==> #[trigger] levels@[k] == (TickQuoter {
                        bid_price: lowered(base_price, k * tick_size) as u64,
                        ask_price: raised(base_price, k * tick_size) as u64,
                        bid_qty: base_qty,
                        ask_qty: base_qty,
                        last_update_ns: 0,
                        spread_bps: 0,
                        is_active: true,
                    }),
            decreases max_levels - i,
        {
            assert(0 <= i * tick_size <= 0xffff_ffff_ffff_ffff * 0xffff_ffff_ffff_ffff)
                by (nonlinear_arith)
                requires
                    i <= 0xffff_ffff_ffff_ffff,
                    tick_size <= 0xffff_ffff_ffff_ffff,
            ;
            let offset: u128 = i as u128 * tick_size as u128;
            levels.push(
                TickQuoter::new(lower(base_price, offset), raise(base_price, offset), base_qty),
            );
            i += 1;
        }
        BatchQuoter { levels, max_levels }
    }

    /// Quotes all levels around a mid price at `now`.
    pub fn update_all_levels_at(
        &mut self,
        mid_price: u64,
        spread_bps: u64,
        base_qty: u64,
        tick_size: u64,
        now: u64,
    )
        ensures
            final(self).max_levels == old(self).max_levels,
            final(self).levels@.len() == old(self).levels@.len(),
            forall|i: int|
                0 <= i < old(self).levels@.len() ==> #[trigger] final(self).levels@[i] == old(
                    self,
                ).levels@[i].quoted(mid_price, spread_bps, base_qty, base_qty, now),
    {
        let mut i: usize = 0;
        while i < self.levels.len()
            invariant
                i <= self.levels@.len(),
                self.max_levels == old(self).max_levels,
                self.levels@.len() == old(self).levels@.len(),
                forall|k: int|
                    0 <= k < i ==> #[trigger] self.levels@[k] == old(self).levels@[k].quoted(
                        mid_price,
                        spread_bps,
                        base_qty,
                        base_qty,
                        now,
                    ),
                forall|k: int|
                    i <= k < self.levels@.len() ==> #[trigger] self.levels@[k] == old(
                        self,
                    ).levels@[k],
            decreases self.levels@.len() - i,
        {
            let mut level = self.levels[i];
            level.update_quote_at(mid_price, spread_bps, base_qty, base_qty, now);
            self.levels.set(i, level);
            i += 1;
        }
    }

    /// Quotes all levels around a mid price.
    pub fn update_all_levels(
        &mut self,
        mid_price: u64,
        spread_bps: u64,
        base_qty: u64,
        tick_size: u64,
    )
        ensures
            final(self).max_levels == old(self).max_levels,
            final(self).levels@.len() == old(self).levels@.len(),
            forall|i: int|
                0 <= i < old(self).levels@.len() ==> #[trigger] final(self).levels@[i] == old(
                    self,
                ).levels@[i].quoted(
                    mid_price,
                    spread_bps,
                    base_qty,
                    base_qty,
                    final(self).levels@[i].last_update_ns,
                ),
    {
        let now: u64 = now_ns();
        self.update_all_levels_at(mid_price, spread_bps, base_qty, tick_size, now);
    }

    /// A level.
    pub fn get_level(&self, level: usize) -> (r: Option<&TickQuoter>)
        ensures
            r is Some <==> level < self.levels@.len(),
            r matches Some(q) ==> *q == self.levels@[level as int],
    {
        if level < self.levels.len() {
            Some(&self.levels[level])
        } else {
            None
        }
    }

    /// How many levels there are.
    pub fn num_levels(&self) -> (n: usize)
        ensures
            n == self.levels@.len(),
    {
        self.levels.len()
    }
}

} // verus!
