//! Reserve orders: a small clip is shown, the rest stays hidden, and under
//! market pressure the price improves. Prices and quantities are in units of
//! 1e-8, factors in millionths.

use vstd::prelude::*;
use crate::base::amount::magnitude;
use crate::base::numbers::{
    between, divide_truncated, fits, hold_between, larger, saturate, saturated, smaller,
    truncated_div,
};

verus! {

/// An order that shows a clip of its size.
#[derive(Debug, Clone, Copy, PartialEq, Eq, Structural)]
pub struct ReserveOrder {
    pub order_id: u64,
    pub total_qty: i64,
    pub display_qty: i64,
    pub hidden_qty: i64,
    pub filled_qty: i64,
    pub limit_price: i64,
    pub is_buy: bool,
    pub is_active: bool,
    pub last_fill_us: u64,
}

impl ReserveOrder {
    /// What is left to fill.
    pub open spec fn left(self) -> int {
        self.total_qty - self.filled_qty
    }

    /// How much of a fill the order takes.
    pub open spec fn taken(self, qty: i64) -> int {
        smaller(qty as int, self.left())
    }

    /// What is left after a fill.
    pub open spec fn left_after(self, qty: i64) -> int {
        self.left() - self.taken(qty)
    }

    /// Whether the hidden part makes up for the shown one after a fill.
    pub open spec fn replenishes(self, qty: i64) -> bool {
        self.left_after(qty) < self.display_qty && self.hidden_qty > 0
    }

    /// Whether no step of a fill leaves the range of `i64`.
    pub open spec fn fill_in_range(self, qty: i64) -> bool {
        &&& fits(self.left())
        &&& fits(self.filled_qty + self.taken(qty))
        &&& fits(self.left_after(qty))
        &&& self.replenishes(qty) ==> fits(self.display_qty - self.left_after(qty))
    }

    /// What is hidden after a fill: what the clip was not made up from, and no
    /// more than is left.
    pub open spec fn hidden_after(self, qty: i64) -> int {
        let kept = if self.replenishes(qty) {
            self.hidden_qty - smaller(
                self.display_qty - self.left_after(qty),
                self.hidden_qty as int,
            )
        } else {
            self.hidden_qty as int
        };
        smaller(kept, larger(self.left_after(qty), 0))
    }

    /// Whether hidden quantity remains; none does where nothing is left.
    pub open spec fn hides(self) -> bool {
        self.left() > 0 && (self.hidden_qty > 0 || self.left() > self.display_qty)
    }

    /// The order after a fill.
    pub open spec fn after_fill(self, qty: i64, now: u64) -> Self {
        ReserveOrder {
            filled_qty: (self.filled_qty + self.taken(qty)) as i64,
            hidden_qty: self.hidden_after(qty) as i64,
            is_active: self.is_active && self.left_after(qty) > 0,
            last_fill_us: now,
            ..self
        }
    }

    /// An active order; what is not shown is hidden.
    pub fn new(
        order_id: u64,
        total_qty: i64,
        display_qty: i64,
        limit_price: i64,
        is_buy: bool,
    ) -> (o: Self)
        requires
            fits(total_qty - display_qty),
        ensures
            o == (ReserveOrder {
                order_id,
                total_qty,
                display_qty,
                hidden_qty: larger(total_qty - display_qty, 0) as i64,
                filled_qty: 0,
                limit_price,
                is_buy,
                is_active: true,
                last_fill_us: 0,
            }),
    {
        let rest: i64 = total_qty - display_qty;
        let hidden_qty: i64 = if rest > 0 { rest } else { 0 };
        ReserveOrder {
            order_id,
            total_qty,
            display_qty,
            hidden_qty,
            filled_qty: 0,
            limit_price,
            is_buy,
            is_active: true,
            last_fill_us: 0,
        }
    }

    /// What is left to fill.
    pub fn remaining(&self) -> (r: i64)
        requires
            fits(self.left()),
        ensures
            r == self.left(),
    {
        self.total_qty - self.filled_qty
    }

    /// What the market sees.
    pub fn current_visible(&self) -> (r: i64)
        requires
            fits(self.left()),
        ensures
            r == smaller(self.left(), self.display_qty as int),
    {
        let remaining: i64 = self.remaining();
        if remaining <= self.display_qty {
            remaining
        } else {
            self.display_qty
        }
    }

    /// Whether hidden quantity remains.
    pub fn has_hidden(&self) -> (r: bool)
        requires
            fits(self.left()),
        ensures
            r == self.hides(),
    {
        let left: i64 = self.remaining();
        left > 0 && (self.hidden_qty > 0 || left > self.display_qty)
    }

    /// Fills part of the order, and tells how much. The hidden part makes up
    /// what is missing of the clip; an order with nothing left is not active.
    pub fn fill(&mut self, qty: i64, timestamp_us: u64) -> (r: i64)
        requires
            old(self).fill_in_range(qty),
        ensures
            r == old(self).taken(qty),
            *final(self) == old(self).after_fill(qty, timestamp_us),
    {
        let remaining: i64 = self.remaining();
        let actual_fill: i64 = if qty <= remaining { qty } else { remaining };
        self.filled_qty = self.filled_qty + actual_fill;
        self.last_fill_us = timestamp_us;
        let left: i64 = self.remaining();
        if left < self.display_qty && self.hidden_qty > 0 {
            let replenish: i64 = self.display_qty - left;
            let from_hidden: i64 = if replenish <= self.hidden_qty {
                replenish
            } else {
                self.hidden_qty
            };
            self.hidden_qty = self.hidden_qty - from_hidden;
        }
        let most: i64 = if left > 0 { left } else { 0 };
        if self.hidden_qty > most {
            self.hidden_qty = most;
        }
        if left <= 0 {
            self.is_active = false;
        }
        actual_fill
    }

    /// Cancels the order.
    pub fn cancel(&mut self)
        ensures
            *final(self) == (ReserveOrder { is_active: false, ..*old(self) }),
    {
        self.is_active = false;
    }

    /// Quantities of an order under way: nothing is negative, no more is filled
    /// than there is, and no more is hidden than is left.
    pub open spec fn sound(self) -> bool {
        0 <= self.filled_qty <= self.total_qty && 0 <= self.display_qty && 0 <= self.hidden_qty
            <= self.left()
    }
}

/// A fill of a sound order can always be made and leaves it sound; it takes all
/// that was offered or all that was left, and only an order with something left
/// stays active or hides anything.
pub proof fn law_fill_keeps_order_sound(o: ReserveOrder, qty: i64, now: u64)
    requires
        o.sound(),
        qty >= 0,
    ensures
        o.fill_in_range(qty),
        o.after_fill(qty, now).sound(),
        o.after_fill(qty, now).left() == o.left() - o.taken(qty),
        o.taken(qty) == qty || o.after_fill(qty, now).left() == 0,
        o.after_fill(qty, now).is_active ==> o.after_fill(qty, now).left() > 0,
        o.after_fill(qty, now).hides() ==> o.after_fill(qty, now).left() > 0,
        o.after_fill(qty, now).left() == 0 ==> o.after_fill(qty, now).hidden_qty == 0,
{
}

/// The size of a pressure, as part of a threshold and no more than `most`
/// thresholds: a numerator over a denominator. A threshold of zero is exceeded
/// by any pressure, and then `most` holds; a negative one turns the sign.
pub open spec fn pressure_ratio(pressure: int, threshold: int, most: int) -> (int, int) {
    if threshold == 0 {
        (most, 1)
    } else if threshold < 0 {
        (-pressure, -threshold)
    } else {
        (smaller(pressure, most * threshold), threshold)
    }
}

/// Moves the price of an order under market pressure.
#[derive(Debug, Clone, Copy, PartialEq, Eq, Structural)]
pub struct DiscretionaryManager {
    pub base_offset: i64,
    pub current_offset: i64,
    pub max_offset: i64,
    /// In millionths.
    pub vol_scale: u32,
    pub pressure_threshold: i64,
    pub is_active: bool,
    pub activation_count: u64,
}

/// The largest volatility scale, in millionths.
pub const MAX_VOL_SCALE: u32 = 3_000_000;

impl DiscretionaryManager {
    /// The scale for volatility is at most three.
    pub open spec fn wf(&self) -> bool {
        self.vol_scale <= MAX_VOL_SCALE
    }

    /// Whether market pressure moves the price.
    pub open spec fn triggered(self, pressure: i64) -> bool {
        magnitude(pressure as int) > self.pressure_threshold
    }

    /// The base offset times the pressure ratio, three at most, and the
    /// volatility scale; no more than the largest offset.
    pub open spec fn offset_for(self, pressure: i64) -> int {
        let ratio = pressure_ratio(
            magnitude(pressure as int) as int,
            self.pressure_threshold as int,
            3,
        );
        smaller(
            saturated(
                truncated_div(
                    self.base_offset * ratio.0 * self.vol_scale,
                    ratio.1 * 1_000_000,
                ),
            ),
            self.max_offset as int,
        )
    }

    /// The price under market pressure: a buyer pays the offset more, a seller
    /// accepts it less.
    pub open spec fn price_for(self, base: i64, is_buy: bool, pressure: i64) -> int {
        if !self.triggered(pressure) {
            base as int
        } else if is_buy {
            base + self.offset_for(pressure)
        } else {
            base - self.offset_for(pressure)
        }
    }

    /// A manager without volatility.
    pub fn new(base_offset: i64, max_offset: i64) -> (m: Self)
        ensures
            m.wf(),
            m == (DiscretionaryManager {
                base_offset,
                current_offset: base_offset,
                max_offset,
                vol_scale: 1_000_000,
                pressure_threshold: 500_000,
                is_active: false,
                activation_count: 0,
            }),
    {
        DiscretionaryManager {
            base_offset,
            current_offset: base_offset,
            max_offset,
            vol_scale: 1_000_000,
            pressure_threshold: 500_000,
            is_active: false,
            activation_count: 0,
        }
    }

    /// The offset that a pressure of a given size calls for.
    fn scaled_offset(&self, size: u64, pressure: i64) -> (r: i64)
        requires
            self.wf(),
            size == magnitude(pressure as int),
        ensures
            r == self.offset_for(pressure),
    {
        let threshold: i64 = self.pressure_threshold;
        let part: u128 = if threshold < 0 {
            (-(threshold as i128)) as u128
        } else if threshold == 0 {
            1
        } else {
            threshold as u128
        };
        let whole: u128 = if threshold == 0 {
            3
        } else if threshold > 0 && size as u128 > 3 * part {
            3 * part
        } else {
            size as u128
        };
        let base: u128 = if self.base_offset < 0 {
            (-(self.base_offset as i128)) as u128
        } else {
            self.base_offset as u128
        };
        let negative: bool = (self.base_offset < 0) != (threshold < 0);
        let v: u128 = self.vol_scale as u128;
        let size_found: u128 = scaled(base, whole, part, v);
        let offset: i64 = if negative {
            saturate(-(size_found as i128))
        } else {
            saturate(size_found as i128)
        };
        proof {
            let ratio = pressure_ratio(size as int, threshold as int, 3);
            let b = self.base_offset as int;
            let d = ratio.1 * 1_000_000;
            let n = base * whole * v;
            assert(ratio.1 == part);
            assert(ratio.0 == (if threshold < 0 {
                -(whole as int)
            } else {
                whole as int
            }));
            let x = ratio.0;
            assert(b * x * v == (if negative {
                -n
            } else {
                n
            })) by (nonlinear_arith)
                requires
                    n == base * whole * v,
                    b == (if b < 0 {
                        -(base as int)
                    } else {
                        base as int
                    }),
                    x == (if threshold < 0 {
                        -(whole as int)
                    } else {
                        whole as int
                    }),
                    negative == ((b < 0) != (threshold < 0)),
            ;
            assert(n >= 0) by (nonlinear_arith)
                requires
                    n == base * whole * v,
            ;
            lemma_truncated(n as int, d);
        }
        if offset <= self.max_offset {
            offset
        } else {
            self.max_offset
        }
    }

    /// The price under market pressure.
    pub fn calculate_discretionary_price(
        &mut self,
        base_price: i64,
        is_buy: bool,
        market_pressure: i64,
    ) -> (r: i64)
        requires
            old(self).wf(),
            fits(old(self).price_for(base_price, is_buy, market_pressure)),
        ensures
            final(self).wf(),
            r == old(self).price_for(base_price, is_buy, market_pressure),
            *final(self) == (if old(self).triggered(market_pressure) {
                DiscretionaryManager {
                    is_active: true,
                    activation_count: old(self).activation_count.wrapping_add(1),
                    current_offset: old(self).offset_for(market_pressure) as i64,
                    ..*old(self)
                }
            } else {
                DiscretionaryManager {
                    is_active: false,
                    current_offset: old(self).base_offset,
                    ..*old(self)
                }
            }),
    {
        let size: u64 = if market_pressure < 0 {
            (-(market_pressure as i128)) as u64
        } else {
            market_pressure as u64
        };
        if size as i128 > self.pressure_threshold as i128 {
            self.is_active = true;
            self.activation_count = self.activation_count.wrapping_add(1);
            let offset: i64 = self.scaled_offset(size, market_pressure);
            self.current_offset = offset;
            if is_buy {
                base_price + offset
            } else {
                base_price - offset
            }
        } else {
            self.is_active = false;
            self.current_offset = self.base_offset;
            base_price
        }
    }

    /// Sets the scale to one and half the volatility, given in millionths, but
    /// no more than three.
    pub fn update_volatility(&mut self, volatility: u32)
        ensures
            final(self).wf(),
            *final(self) == (DiscretionaryManager {
                vol_scale: smaller(1_000_000 + volatility as int / 2, 3_000_000) as u32,
                ..*old(self)
            }),
    {
        let half: u32 = volatility / 2;
        self.vol_scale =
        if half >= 2_000_000 {
            3_000_000
        } else {
            1_000_000 + half
        };
    }

    /// Sets the pressure above which the price moves.
    pub fn set_threshold(&mut self, threshold: i64)
        ensures
            *final(self) == (DiscretionaryManager { pressure_threshold: threshold, ..*old(self) }),
    {
        self.pressure_threshold = threshold;
    }

    /// The offset last used.
    pub fn get_current_offset(&self) -> (r: i64)
        ensures
            r == self.current_offset,
    {
        self.current_offset
    }

    /// Whether the price was moved last.
    pub fn is_discretion_active(&self) -> (r: bool)
        ensures
            r == self.is_active,
    {
        self.is_active
    }

    /// How often the price was moved, the volatility scale in millionths, and
    /// whether the price was moved last.
    pub fn get_stats(&self) -> (r: (u64, u32, bool))
        ensures
            r == (self.activation_count, self.vol_scale, self.is_active),
    {
        (self.activation_count, self.vol_scale, self.is_active)
    }
}

proof fn lemma_truncated(n: int, d: int)
    requires
        n >= 0,
        d > 0,
    ensures
        truncated_div(n, d) == n / d,
        truncated_div(-n, d) == -(n / d),
        n / d >= 0,
{
    assert(n / d >= 0) by (nonlinear_arith)
        requires
            n >= 0,
            d > 0,
    ;
    assert(0int / d == 0) by (nonlinear_arith)
        requires
            d > 0,
    ;
}

/// The whole part of `base * whole * v / (part * 1_000_000)`; where that
/// exceeds the range of `u64`, some number that exceeds it too.
fn scaled(base: u128, whole: u128, part: u128, v: u128) -> (r: u128)
    requires
        base <= 0x8000_0000_0000_0000,
        whole <= 0x8000_0000_0000_0000,
        1 <= part <= 0x8000_0000_0000_0000,
        v <= 3_000_000,
    ensures
        saturated(r as int) == saturated(
            (base * whole * v) as int / (part * 1_000_000) as int,
        ),
        saturated(-r) == saturated(-((base * whole * v) as int / (part * 1_000_000) as int)),
        r <= 0x4000_0000_0000_0000_0000_0000_0000_0000,
{
    assert(base * whole <= 0x8000_0000_0000_0000 * 0x8000_0000_0000_0000) by (nonlinear_arith)
        requires
            base <= 0x8000_0000_0000_0000,
            whole <= 0x8000_0000_0000_0000,
    ;
    let x: u128 = base * whole;
    let q: u128 = x / part;
    let rest: u128 = x % part;
    let ghost n = x as int;
    let ghost p = part as int;
    let ghost exact = (base * whole * v) as int / (part * 1_000_000) as int;
    proof {
        vstd::arithmetic::div_mod::lemma_fundamental_div_mod(n, p);
        assert(base * whole * v == n * v) by (nonlinear_arith)
            requires
                n == base * whole,
        ;
        lemma_two_steps(n, p, v as int);
    }
    assert(rest * v <= 0x8000_0000_0000_0000 * 3_000_000) by (nonlinear_arith)
        requires
            rest < 0x8000_0000_0000_0000,
            v <= 3_000_000,
    ;
    let more: u128 = rest * v / part;
    proof {
        let m = (rest * v) as int;
        vstd::arithmetic::div_mod::lemma_fundamental_div_mod(m, p);
        assert(more <= 3_000_000) by (nonlinear_arith)
            requires
                m == rest * v,
                m == p * more + m % p,
                m % p >= 0,
                rest < p,
                v <= 3_000_000,
                p >= 1,
        ;
    }
    if q > 0x10_0000_0000_0000_0000_0000_0000 && v > 0 {
        proof {
            assert(exact >= 0x8000_0000_0000_0000) by (nonlinear_arith)
                requires
                    exact == (q * v + more) / 1_000_000,
                    q > 0x10_0000_0000_0000_0000_0000_0000,
                    v >= 1,
                    more >= 0,
            ;
        }
        return 0x1_0000_0000_0000_0000;
    }
    assert(q * v <= 0x10_0000_0000_0000_0000_0000_0000 * 3_000_000) by (nonlinear_arith)
        requires
            q <= 0x10_0000_0000_0000_0000_0000_0000 || v == 0,
            v <= 3_000_000,
    ;
    (q * v + more) / 1_000_000
}

/// A product over a product, worked out in two divisions.
proof fn lemma_two_steps(n: int, p: int, v: int)
    requires
        n >= 0,
        p >= 1,
        v >= 0,
    ensures
        (n * v) / (p * 1_000_000) == ((n / p) * v + ((n % p) * v) / p) / 1_000_000,
{
    let q = n / p;
    let r = n % p;
    vstd::arithmetic::div_mod::lemma_fundamental_div_mod(n, p);
    assert(n * v == p * (q * v) + r * v) by (nonlinear_arith)
        requires
            n == p * q + r,
    ;
    assert(n * v >= 0) by (nonlinear_arith)
        requires
            n >= 0,
            v >= 0,
    ;
    vstd::arithmetic::div_mod::lemma_div_denominator(n * v, p, 1_000_000);
    vstd::arithmetic::div_mod::lemma_hoist_over_denominator(r * v, q * v, p as nat);
    assert((n * v) / p == q * v + (r * v) / p) by {
        assert(n * v == (q * v) * p + r * v) by (nonlinear_arith)
            requires
                n * v == p * (q * v) + r * v,
        ;
    }
}

/// Sizes clips by how fast an order fills. The fill rate is per second and in
/// units of 1e-4.
#[derive(Debug, Clone, Copy, PartialEq, Eq, Structural)]
pub struct DynamicClipAdjuster {
    pub min_clip: i64,
    pub max_clip: i64,
    pub target_time_us: u64,
    pub fill_rate: i64,
    /// In millionths.
    pub adaptation_speed: u32,
}

/// The smoothed fill rate: the observed one enters with the adaptation speed.
pub open spec fn smoothed(rate: int, observed: int, speed: int) -> int {
    truncated_div(rate * (1_000_000 - speed) + observed * speed, 1_000_000)
}

/// The microseconds to fill a quantity at a rate, within the range of `u64`.
pub open spec fn time_to_fill(remaining: int, rate: int) -> int {
    if remaining <= 0 {
        0
    } else {
        smaller(remaining * 10_000_000_000 / rate, u64::MAX as int)
    }
}

impl DynamicClipAdjuster {
    /// The adaptation speed is from a hundredth to a half.
    pub open spec fn wf(&self) -> bool {
        10_000 <= self.adaptation_speed <= 500_000
    }

    /// The clip while the order takes `time` to fill.
    pub open spec fn clip_for(self, time: int) -> int {
        let target = self.target_time_us as int;
        let low = self.min_clip as int;
        let high = self.max_clip as int;
        if time > target {
            smaller(
                saturated(
                    if time >= 3 * target {
                        3 * low
                    } else {
                        truncated_div(low * time, target)
                    },
                ),
                high,
            )
        } else if time < target / 2 {
            larger(
                saturated(
                    if 4 * time <= target {
                        truncated_div(high, 2)
                    } else {
                        truncated_div(high * (2 * time), target)
                    },
                ),
                low,
            )
        } else {
            between(truncated_div(low + high, 2), low, high)
        }
    }

    /// An adjuster without an observed rate.
    pub fn new(min_clip: i64, max_clip: i64, target_time_ms: u64) -> (a: Self)
        requires
            target_time_ms * 1000 <= u64::MAX,
        ensures
            a.wf(),
            a == (DynamicClipAdjuster {
                min_clip,
                max_clip,
                target_time_us: (target_time_ms * 1000) as u64,
                fill_rate: 0,
                adaptation_speed: 100_000,
            }),
    {
        DynamicClipAdjuster {
            min_clip,
            max_clip,
            target_time_us: target_time_ms * 1000,
            fill_rate: 0,
            adaptation_speed: 100_000,
        }
    }

    /// Takes in an observed fill rate and sizes the next clip: larger while the
    /// order lags behind its target time, smaller while it is well ahead.
    pub fn calculate_optimal_clip(
        &mut self,
        remaining: i64,
        elapsed_us: u64,
        fill_rate_observed: i64,
    ) -> (r: i64)
        requires
            old(self).wf(),
        ensures
            final(self).wf(),
            *final(self) == (DynamicClipAdjuster {
                fill_rate: smoothed(
                    old(self).fill_rate as int,
                    fill_rate_observed as int,
                    old(self).adaptation_speed as int,
                ) as i64,
                ..*old(self)
            }),
            r == (if elapsed_us == 0 || final(self).fill_rate <= 0 {
                old(self).min_clip as int
            } else {
                old(self).clip_for(time_to_fill(remaining as int, final(self).fill_rate as int))
            }),
    {
        let rate: i64 = smooth(self.fill_rate, fill_rate_observed, self.adaptation_speed);
        self.fill_rate = rate;
        if elapsed_us == 0 || rate <= 0 {
            return self.min_clip;
        }
        let time: u64 = if remaining <= 0 {
            0
        } else {
            let us: u128 = remaining as u128 * 10_000_000_000 / rate as u128;
            if us <= u64::MAX as u128 {
                us as u64
            } else {
                u64::MAX
            }
        };
        self.clip_at(time)
    }

    fn clip_at(&self, time: u64) -> (r: i64)
        ensures
            r == self.clip_for(time as int),
    {
        let target: u64 = self.target_time_us;
        let low: i128 = self.min_clip as i128;
        let high: i128 = self.max_clip as i128;
        if time > target {
            let scaled: i64 = if time as u128 >= 3 * target as u128 {
                saturate(3 * low)
            } else {
                assert(-0x8000_0000_0000_0000 * 0xffff_ffff_ffff_ffff <= low * time
                    <= 0x8000_0000_0000_0000 * 0xffff_ffff_ffff_ffff) by (nonlinear_arith)
                    requires
                        -0x8000_0000_0000_0000 <= low <= 0x8000_0000_0000_0000,
                        0 <= time <= 0xffff_ffff_ffff_ffff,
                ;
                saturate(divide_truncated(low * time as i128, target))
            };
            if scaled <= self.max_clip {
                scaled
            } else {
                self.max_clip
            }
        } else if time < target / 2 {
            let scaled: i64 = if 4 * time as u128 <= target as u128 {
                saturate(divide_truncated(high, 2))
            } else {
                let twice: i128 = 2 * time as i128;
                assert(-0x8000_0000_0000_0000 * 0xffff_ffff_ffff_ffff <= high * twice
                    <= 0x8000_0000_0000_0000 * 0xffff_ffff_ffff_ffff) by (nonlinear_arith)
                    requires
                        -0x8000_0000_0000_0000 <= high <= 0x8000_0000_0000_0000,
                        0 <= twice <= 0xffff_ffff_ffff_ffff,
                ;
                saturate(divide_truncated(high * twice, target))
            };
            if scaled >= self.min_clip {
                scaled
            } else {
                self.min_clip
            }
        } else {
            let middle: i64 = saturate(divide_truncated(low + high, 2));
            hold_between(middle, self.min_clip, self.max_clip)
        }
    }

    /// Sets the target time.
    pub fn set_target_time(&mut self, target_time_ms: u64)
        requires
            target_time_ms * 1000 <= u64::MAX,
        ensures
            *final(self) == (DynamicClipAdjuster {
                target_time_us: (target_time_ms * 1000) as u64,
                ..*old(self)
            }),
    {
        self.target_time_us = target_time_ms * 1000;
    }

    /// Sets the adaptation speed, in millionths: from a hundredth to a half.
    pub fn set_adaptation_speed(&mut self, speed: u32)
        ensures
            final(self).wf(),
            *final(self) == (DynamicClipAdjuster {
                adaptation_speed: between(speed as int, 10_000, 500_000) as u32,
                ..*old(self)
            }),
    {
        self.adaptation_speed =
        if speed < 10_000 {
            10_000
        } else if speed > 500_000 {
            500_000
        } else {
            speed
        };
    }

    /// The smoothed fill rate.
    pub fn get_fill_rate(&self) -> (r: i64)
        ensures
            r == self.fill_rate,
    {
        self.fill_rate
    }
}

fn smooth(rate: i64, observed: i64, speed: u32) -> (r: i64)
    requires
        speed <= 1_000_000,
    ensures
        r == smoothed(rate as int, observed as int, speed as int),
{
    let keep: i128 = 1_000_000 - speed as i128;
    let take: i128 = speed as i128;
    let a: i128 = rate as i128;
    let b: i128 = observed as i128;
    assert(-0x8000_0000_0000_0000 * keep <= a * keep <= 0x7fff_ffff_ffff_ffff * keep)
        by (nonlinear_arith)
        requires
            -0x8000_0000_0000_0000 <= a <= 0x7fff_ffff_ffff_ffff,
            0 <= keep,
    ;
    assert(-0x8000_0000_0000_0000 * take <= b * take <= 0x7fff_ffff_ffff_ffff * take)
        by (nonlinear_arith)
        requires
            -0x8000_0000_0000_0000 <= b <= 0x7fff_ffff_ffff_ffff,
            0 <= take,
    ;
    divide_truncated(a * keep + b * take, 1_000_000) as i64
}

/// With bounds in order and not negative, a clip never leaves them.
pub proof fn law_clip_within_bounds(a: DynamicClipAdjuster, time: int)
    requires
        0 <= a.min_clip <= a.max_clip,
        0 <= time,
    ensures
        a.min_clip <= a.clip_for(time) <= a.max_clip,
{
    let target = a.target_time_us as int;
    let low = a.min_clip as int;
    let high = a.max_clip as int;
    if target < time < 3 * target {
        assert(low * time / target >= low) by (nonlinear_arith)
            requires
                0 < target < time,
                low >= 0,
        ;
        assert(low * time >= 0) by (nonlinear_arith)
            requires
                0 < time,
                low >= 0,
        ;
    } else if time < target / 2 && 4 * time > target {
        assert(high * (2 * time) / target <= high) by (nonlinear_arith)
            requires
                0 < 2 * time <= target,
                high >= 0,
        ;
        assert(high * (2 * time) >= 0) by (nonlinear_arith)
            requires
                0 <= time,
                high >= 0,
        ;
    }
}

/// Pressure above which a manager moves the price.
pub const PRESSURE_THRESHOLD: i64 = 500_000;

/// Makes reserve orders, fills them and counts the fills.
#[derive(Debug, Clone, Copy, PartialEq, Eq, Structural)]
pub struct ReserveOrderManager {
    pub active_count: u64,
    pub total_fills: u64,
    pub total_volume: i64,
    pub default_discretion_offset: i64,
    pub default_min_clip: i64,
    pub enabled: bool,
}

impl ReserveOrderManager {
    /// The clip to show of a quantity: a part in millionths, at least the
    /// smallest clip, at most everything.
    pub open spec fn display(self, total: i64, part: i64) -> int {
        between(
            saturated(truncated_div(total * part, 1_000_000)),
            self.default_min_clip as int,
            total as int,
        )
    }

    /// The offset under a pressure: in proportion to it, twice at most.
    pub open spec fn pressed(offset: i64, pressure: int) -> int {
        saturated(
            truncated_div(offset * smaller(pressure, 2 * PRESSURE_THRESHOLD), PRESSURE_THRESHOLD as int),
        )
    }

    /// The price under market pressure.
    pub open spec fn price_for(base: i64, is_buy: bool, pressure: i64, offset: i64) -> int {
        if magnitude(pressure as int) <= PRESSURE_THRESHOLD {
            base as int
        } else if is_buy {
            base + Self::pressed(offset, magnitude(pressure as int) as int)
        } else {
            base - Self::pressed(offset, magnitude(pressure as int) as int)
        }
    }

    /// An enabled manager.
    pub fn new(default_discretion: i64, min_clip: i64) -> (m: Self)
        ensures
            m == (ReserveOrderManager {
                active_count: 0,
                total_fills: 0,
                total_volume: 0,
                default_discretion_offset: default_discretion,
                default_min_clip: min_clip,
                enabled: true,
            }),
    {
        ReserveOrderManager {
            active_count: 0,
            total_fills: 0,
            total_volume: 0,
            default_discretion_offset: default_discretion,
            default_min_clip: min_clip,
            enabled: true,
        }
    }

    /// An order that shows a part of its size, given in millionths.
    pub fn create_reserve_order(
        &mut self,
        order_id: u64,
        total_qty: i64,
        display_part: i64,
        limit_price: i64,
        is_buy: bool,
    ) -> (r: ReserveOrder)
        requires
            fits(total_qty - old(self).display(total_qty, display_part)),
        ensures
            r == (ReserveOrder {
                order_id,
                total_qty,
                display_qty: old(self).display(total_qty, display_part) as i64,
                hidden_qty: larger(
                    total_qty - old(self).display(total_qty, display_part),
                    0,
                ) as i64,
                filled_qty: 0,
                limit_price,
                is_buy,
                is_active: true,
                last_fill_us: 0,
            }),
            *final(self) == (ReserveOrderManager {
                active_count: old(self).active_count.wrapping_add(1),
                ..*old(self)
            }),
    {
        let total: i128 = total_qty as i128;
        let part: i128 = display_part as i128;
        assert(-0x8000_0000_0000_0000 * 0x8000_0000_0000_0000 <= total * part
            <= 0x8000_0000_0000_0000 * 0x8000_0000_0000_0000) by (nonlinear_arith)
            requires
                -0x8000_0000_0000_0000 <= total <= 0x8000_0000_0000_0000,
                -0x8000_0000_0000_0000 <= part <= 0x8000_0000_0000_0000,
        ;
        let shown: i64 = saturate(divide_truncated(total * part, 1_000_000));
        let display_qty: i64 = hold_between(shown, self.default_min_clip, total_qty);
        let order = ReserveOrder::new(order_id, total_qty, display_qty, limit_price, is_buy);
        self.active_count = self.active_count.wrapping_add(1);
        order
    }

    /// Fills an active order, and counts what it took.
    pub fn process_fill(&mut self, order: &mut ReserveOrder, qty: i64, timestamp_us: u64)
        requires
            old(self).enabled && old(order).is_active ==> old(order).fill_in_range(qty),
        ensures
            old(self).enabled && old(order).is_active ==> *final(order) == old(order).after_fill(
                qty,
                timestamp_us,
            ) && *final(self) == (ReserveOrderManager {
                total_fills: if old(order).taken(qty) > 0 {
                    old(self).total_fills.wrapping_add(1)
                } else {
                    old(self).total_fills
                },
                total_volume: if old(order).taken(qty) > 0 {
                    old(self).total_volume.wrapping_add(old(order).taken(qty) as i64)
                } else {
                    old(self).total_volume
                },
                active_count: if old(order).left_after(qty) > 0 {
                    old(self).active_count
                } else {
                    old(self).active_count.wrapping_sub(1)
                },
                ..*old(self)
            }),
            !(old(self).enabled && old(order).is_active) ==> *final(order) == *old(order)
                && *final(self) == *old(self),
    {
        if !order.is_active || !self.enabled {
            return;
        }
        let filled: i64 = order.fill(qty, timestamp_us);
        if filled > 0 {
            self.total_fills = self.total_fills.wrapping_add(1);
            self.total_volume = self.total_volume.wrapping_add(filled);
        }
        if !order.is_active {
            self.active_count = self.active_count.wrapping_sub(1);
        }
    }

    /// The price under market pressure, with an offset of the caller's or the
    /// default one.
    pub fn get_discretionary_price(
        &self,
        base_price: i64,
        is_buy: bool,
        market_pressure: i64,
        custom_offset: Option<i64>,
    ) -> (r: i64)
        requires
            fits(
                Self::price_for(
                    base_price,
                    is_buy,
                    market_pressure,
                    match custom_offset {
                        Some(o) => o,
                        None => self.default_discretion_offset,
                    },
                ),
            ),
        ensures
            r == Self::price_for(
                base_price,
                is_buy,
                market_pressure,
                match custom_offset {
                    Some(o) => o,
                    None => self.default_discretion_offset,
                },
            ),
    {
        let offset: i64 = match custom_offset {
            Some(o) => o,
            None => self.default_discretion_offset,
        };
        let size: i128 = if market_pressure < 0 {
            -(market_pressure as i128)
        } else {
            market_pressure as i128
        };
        let threshold: i128 = PRESSURE_THRESHOLD as i128;
        if size > threshold {
            let pressed: i128 = if size <= 2 * threshold { size } else { 2 * threshold };
            let o: i128 = offset as i128;
            assert(-0x8000_0000_0000_0000 * 1_000_000 <= o * pressed <= 0x8000_0000_0000_0000
                * 1_000_000) by (nonlinear_arith)
                requires
                    -0x8000_0000_0000_0000 <= o <= 0x8000_0000_0000_0000,
                    0 <= pressed <= 1_000_000,
            ;
            let adjusted: i64 = saturate(divide_truncated(o * pressed, 500_000));
            if is_buy {
                base_price + adjusted
            } else {
                base_price - adjusted
            }
        } else {
            base_price
        }
    }

    /// Active orders, fills, their volume, and whether fills are taken.
    pub fn get_stats(&self) -> (r: (u64, u64, i64, bool))
        ensures
            r == (self.active_count, self.total_fills, self.total_volume, self.enabled),
    {
        (self.active_count, self.total_fills, self.total_volume, self.enabled)
    }

    /// Enables or disables the taking of fills.
    pub fn set_enabled(&mut self, enabled: bool)
        ensures
            *final(self) == (ReserveOrderManager { enabled, ..*old(self) }),
    {
        self.enabled = enabled;
    }
}

impl Default for DiscretionaryManager {
    fn default() -> (m: Self)
        ensures
            m.wf(),
            m.base_offset == 5,
            m.max_offset == 50,
            m.current_offset == 5,
            m.vol_scale == 1_000_000,
            m.pressure_threshold == 500_000,
            !m.is_active,
            m.activation_count == 0,
    {
        DiscretionaryManager::new(5, 50)
    }
}

impl Default for DynamicClipAdjuster {
    fn default() -> (a: Self)
        ensures
            a.wf(),
            a.min_clip == 100_000,
            a.max_clip == 1_000_000,
            a.target_time_us == 60_000_000,
            a.fill_rate == 0,
            a.adaptation_speed == 100_000,
    {
        DynamicClipAdjuster::new(100_000, 1_000_000, 60_000)
    }
}

impl Default for ReserveOrderManager {
    fn default() -> (m: Self)
        ensures
            m == (ReserveOrderManager {
                active_count: 0,
                total_fills: 0,
                total_volume: 0,
                default_discretion_offset: 5,
                default_min_clip: 100_000,
                enabled: true,
            }),
    {
        ReserveOrderManager::new(5, 100_000)
    }
}

} // verus!
