//! The spread to quote, from inventory, queue depletion, alpha decay and
//! volatility.

use vstd::prelude::*;
use crate::base::amount::magnitude;
use crate::base::numbers::smaller;

verus! {

/// State of the optimiser. Spreads are in basis points.
#[derive(Debug, Clone, Copy, PartialEq, Eq, Structural)]
pub struct SpreadOptimizer {
    pub base_spread_bps: u64,
    pub current_spread_bps: u64,
    pub inventory: i64,
    /// Thousandths of a basis point for each unit of inventory.
    pub inventory_skew_bps: u64,
    /// A thousand is the normal rate.
    pub queue_depletion_rate: u64,
    /// A thousand is no decay.
    pub alpha_decay_factor: u64,
    pub vol_adjustment_bps: u64,
    pub is_active: bool,
}

impl SpreadOptimizer {
    /// The decay factor is at most a thousand.
    pub open spec fn wf(&self) -> bool {
        self.alpha_decay_factor <= 1000
    }

    /// The spread with the inventory's weight.
    pub open spec fn with_inventory(&self) -> int {
        self.base_spread_bps + magnitude(self.inventory as int) * self.inventory_skew_bps / 1000
    }

    /// A spread with the queue's weight: at fast depletion up to a fifth less,
    /// at slow depletion a tenth more.
    pub open spec fn with_queue(&self, spread: int) -> int {
        if self.queue_depletion_rate > 2000 {
            spread - smaller(spread * 20 / 100, (self.queue_depletion_rate - 2000) / 100)
        } else if self.queue_depletion_rate < 500 {
            spread + spread * 10 / 100
        } else {
            spread
        }
    }

    /// A spread with the decay's weight: up to half more.
    pub open spec fn with_decay(&self, spread: int) -> int {
        if self.alpha_decay_factor < 1000 {
            spread + (1000 - self.alpha_decay_factor) * spread / 2000
        } else {
            spread
        }
    }

    /// The spread to quote: from one to a thousand basis points, or the base
    /// spread where the optimiser is not active.
    pub open spec fn optimal_spread(&self) -> int {
        let wide = self.with_decay(self.with_queue(self.with_inventory()))
            + self.vol_adjustment_bps;
        if !self.is_active {
            self.base_spread_bps as int
        } else if wide < 1 {
            1
        } else if wide > 1000 {
            1000
        } else {
            wide
        }
    }

    /// An active optimiser without inventory.
    pub fn new(base_spread_bps: u64, inventory_skew_bps: u64) -> (o: Self)
        ensures
            o.wf(),
            o == (SpreadOptimizer {
                base_spread_bps,
                current_spread_bps: base_spread_bps,
                inventory: 0,
                inventory_skew_bps,
                queue_depletion_rate: 1000,
                alpha_decay_factor: 1000,
                vol_adjustment_bps: 0,
                is_active: true,
            }),
    {
        SpreadOptimizer {
            base_spread_bps,
            current_spread_bps: base_spread_bps,
            inventory: 0,
            inventory_skew_bps,
            queue_depletion_rate: 1000,
            alpha_decay_factor: 1000,
            vol_adjustment_bps: 0,
            is_active: true,
        }
    }

    /// The size of the inventory times the skew.
    fn skewed(&self) -> (r: u128)
        ensures
            r == magnitude(self.inventory as int) * self.inventory_skew_bps,
            r <= 0x8000_0000_0000_0000 * 0xffff_ffff_ffff_ffff,
    {
        let size: u128 = if self.inventory < 0 {
            (-(self.inventory as i128)) as u128
        } else {
            self.inventory as u128
        };
        let skew: u128 = self.inventory_skew_bps as u128;
        assert(size * skew <= 0x8000_0000_0000_0000 * 0xffff_ffff_ffff_ffff) by (nonlinear_arith)
            requires
                size <= 0x8000_0000_0000_0000,
                skew <= 0xffff_ffff_ffff_ffff,
        ;
        size * skew
    }

    /// Calculates the spread to quote, and remembers it.
    pub fn calculate_optimal_spread(&mut self, mid_price: u64) -> (r: u64)
        requires
            old(self).wf(),
        ensures
            r == old(self).optimal_spread(),
            *final(self) == (if old(self).is_active {
                SpreadOptimizer { current_spread_bps: r, ..*old(self) }
            } else {
                *old(self)
            }),
    {
        if !self.is_active {
            return self.base_spread_bps;
        }
        let first: u128 = self.base_spread_bps as u128 + self.skewed() / 1000;
        let result: u64 = if first > 1_000_000_000_000_000_000_000_000u128 {
            proof {
                self.lemma_wide(first as int);
            }
            1000
        } else {
            let mut spread: u128 = first;
            let depletion: u128 = self.queue_depletion_rate as u128;
            if depletion > 2000 {
                let reduction: u128 = spread * 20 / 100;
                let most: u128 = (depletion - 2000) / 100;
                spread = spread - (if reduction <= most {
                    reduction
                } else {
                    most
                });
            } else if depletion < 500 {
                spread = spread + spread * 10 / 100;
            }
            let alpha: u128 = self.alpha_decay_factor as u128;
            if alpha < 1000 {
                let lost: u128 = 1000 - alpha;
                assert(lost * spread <= 1000 * spread) by (nonlinear_arith)
                    requires
                        lost <= 1000,
                ;
                spread = spread + lost * spread / 2000;
            }
            spread = spread + self.vol_adjustment_bps as u128;
            if spread < 1 {
                1
            } else if spread > 1000 {
                1000
            } else {
                spread as u64
            }
        };
        self.current_spread_bps = result;
        result
    }

    proof fn lemma_wide(&self, spread: int)
        requires
            self.wf(),
            self.is_active,
            spread == self.with_inventory(),
            spread > 1_000_000_000,
        ensures
            self.optimal_spread() == 1000,
    {
        let q = self.with_queue(spread);
        assert(q >= spread - spread * 20 / 100);
        assert(q > 1000);
        let a = 1000 - self.alpha_decay_factor;
        assert(a * q >= 0) by (nonlinear_arith)
            requires
                a >= 0,
                q >= 0,
        ;
        assert(self.with_decay(q) >= q);
    }

    /// Changes the inventory; it wraps around at the ends of its range.
    pub fn update_inventory(&mut self, delta: i64)
        ensures
            *final(self) == (SpreadOptimizer {
                inventory: old(self).inventory.wrapping_add(delta),
                ..*old(self)
            }),
    {
        self.inventory = self.inventory.wrapping_add(delta);
    }

    /// The inventory.
    pub fn get_inventory(&self) -> (r: i64)
        ensures
            r == self.inventory,
    {
        self.inventory
    }

    /// Sets the rate at which queues empty.
    pub fn update_queue_depletion(&mut self, rate: u64)
        ensures
            *final(self) == (SpreadOptimizer { queue_depletion_rate: rate, ..*old(self) }),
    {
        self.queue_depletion_rate = rate;
    }

    /// Sets the decay factor, a thousand at most.
    pub fn update_alpha_decay(&mut self, factor: u64)
        ensures
            *final(self) == (SpreadOptimizer {
                alpha_decay_factor: if factor < 1000 {
                    factor
                } else {
                    1000
                },
                ..*old(self)
            }),
            final(self).wf(),
    {
        self.alpha_decay_factor = if factor < 1000 { factor } else { 1000 };
    }

    /// Sets what volatility adds.
    pub fn update_vol_adjustment(&mut self, bps: u64)
        ensures
            *final(self) == (SpreadOptimizer { vol_adjustment_bps: bps, ..*old(self) }),
    {
        self.vol_adjustment_bps = bps;
    }

    /// The spread below the middle.
    pub open spec fn bid_spread(&self, base_spread: u64) -> int {
        self.skewed_spread(base_spread, self.inventory > 0)
    }

    /// The spread above the middle.
    pub open spec fn ask_spread(&self, base_spread: u64) -> int {
        self.skewed_spread(base_spread, self.inventory < 0)
    }

    /// A spread on the side that inventory weighs on, and one on the other: a
    /// full weight more, or half a weight less, within the range of `u64`.
    pub open spec fn skewed_spread(&self, base_spread: u64, against: bool) -> int {
        let weight = magnitude(self.inventory as int) * self.inventory_skew_bps;
        if against {
            smaller(base_spread + weight / 1000, u64::MAX as int)
        } else if base_spread >= weight / 2000 {
            base_spread - weight / 2000
        } else {
            0
        }
    }

    fn skew(&self, base_spread: u64, against: bool) -> (r: u64)
        ensures
            r == self.skewed_spread(base_spread, against),
    {
        let weight: u128 = self.skewed();
        if against {
            let sum: u128 = base_spread as u128 + weight / 1000;
            if sum <= u64::MAX as u128 {
                sum as u64
            } else {
                u64::MAX
            }
        } else {
            let less: u128 = weight / 2000;
            if base_spread as u128 >= less {
                base_spread - less as u64
            } else {
                0
            }
        }
    }

    /// The spread on the bid side: wider while the inventory is long.
    pub fn get_bid_adjustment(&self, mid_price: u64, base_spread: u64) -> (r: u64)
        ensures
            r == self.bid_spread(base_spread),
    {
        self.skew(base_spread, self.inventory > 0)
    }

    /// The spread on the ask side: wider while the inventory is short.
    pub fn get_ask_adjustment(&self, mid_price: u64, base_spread: u64) -> (r: u64)
        ensures
            r == self.ask_spread(base_spread),
    {
        self.skew(base_spread, self.inventory < 0)
    }

    /// Sets everything but the base spread, the skew and the activity back.
    pub fn reset(&mut self)
        ensures
            *final(self) == (SpreadOptimizer {
                current_spread_bps: old(self).base_spread_bps,
                inventory: 0,
                queue_depletion_rate: 1000,
                alpha_decay_factor: 1000,
                vol_adjustment_bps: 0,
                ..*old(self)
            }),
            final(self).wf(),
    {
        self.current_spread_bps = self.base_spread_bps;
        self.inventory = 0;
        self.queue_depletion_rate = 1000;
        self.alpha_decay_factor = 1000;
        self.vol_adjustment_bps = 0;
    }
}

/// An active optimiser quotes from one to a thousand basis points.
pub proof fn law_spread_bounds(o: SpreadOptimizer)
    requires
        o.is_active,
    ensures
        1 <= o.optimal_spread() <= 1000,
{
}

/// Decay never narrows the spread.
pub proof fn law_decay_widens(o: SpreadOptimizer, spread: int)
    requires
        o.wf(),
        spread >= 0,
    ensures
        o.with_decay(spread) >= spread,
{
    let a = 1000 - o.alpha_decay_factor;
    assert(a * spread >= 0) by (nonlinear_arith)
        requires
            a >= 0,
            spread >= 0,
    ;
}

/// A long inventory never narrows the bid side and never widens the ask side.
pub proof fn law_long_inventory_skews(o: SpreadOptimizer, base_spread: u64)
    requires
        o.inventory > 0,
    ensures
        o.skewed_spread(base_spread, o.inventory > 0) >= base_spread,
        o.skewed_spread(base_spread, o.inventory < 0) <= base_spread,
{
    let weight = magnitude(o.inventory as int) * o.inventory_skew_bps;
    assert(weight >= 0) by (nonlinear_arith)
        requires
            weight == magnitude(o.inventory as int) * o.inventory_skew_bps,
    ;
}

} // verus!
