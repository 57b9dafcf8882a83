//! How aggressively to execute: urgency from alpha, order book imbalance,
//! volume delta, progress and volatility. Quantities, prices, scores and basis
//! points are decimal numbers with eight places.

use vstd::prelude::*;
use crate::base::amount::{magnitude, Amount, UNITS_PER_ONE};
use crate::base::clock::now_secs;
use crate::base::numbers::{
    between, divide_truncated, divide_wide, end_beside, fits, hold_between, larger, product,
    product_of, quotient, ratio, ratio_of, saturate, saturated, share, share_of, smaller, truncated_div,
    ProductSum,
};
use crate::execution::iceberg_sniper::first;
use crate::execution::twap_vwap::progress_pct;

verus! {

/// How far the two sides of an order book differ.
#[derive(Debug, Clone, Copy, PartialEq, Eq, Structural)]
pub struct OrderBookImbalance {
    pub bid_volume: Amount,
    pub ask_volume: Amount,
    /// From minus one to one; positive where bids prevail.
    pub imbalance_ratio: Amount,
    /// The same with each level weighted by its place.
    pub weighted_imbalance: Amount,
}

/// The quantity on levels, each given as price and quantity.
pub open spec fn volume(s: Seq<(Amount, Amount)>) -> int
    decreases s.len(),
{
    if s.len() == 0 {
        0
    } else {
        volume(s.drop_last()) + s.last().1.units
    }
}

/// The quantity on levels, each divided by its place counted from one.
pub open spec fn weighted_volume(s: Seq<(Amount, Amount)>) -> int
    decreases s.len(),
{
    if s.len() == 0 {
        0
    } else {
        weighted_volume(s.drop_last()) + truncated_div(s.last().1.units as int, s.len() as int)
    }
}

/// The difference of two volumes as part of their sum.
pub open spec fn imbalance(bids: int, asks: int) -> int {
    if bids + asks > 0 {
        share(bids - asks, bids + asks)
    } else {
        0
    }
}

/// The volume and the weighted volume on the first `levels` levels.
fn side_volumes(side: &[(Amount, Amount)], levels: usize) -> (r: (i64, i64))
    ensures
        r.0 == saturated(volume(first(side@, levels as int))),
        r.1 == saturated(weighted_volume(first(side@, levels as int))),
{
    let ghost s = first(side@, levels as int);
    let mut sum: i128 = 0;
    let mut weighted: i128 = 0;
    let mut i: usize = 0;
    assert(s.take(0) =~= Seq::empty());
    while i < side.len() && i < levels
        invariant
            i <= s.len(),
            s == first(side@, levels as int),
            sum == volume(s.take(i as int)),
            weighted == weighted_volume(s.take(i as int)),
            -(0x8000_0000_0000_0000 * i) <= sum <= 0x8000_0000_0000_0000 * i,
            -(0x8000_0000_0000_0000 * i) <= weighted <= 0x8000_0000_0000_0000 * i,
        decreases s.len() - i,
    {
        let qty: i64 = side[i].1.units;
        assert(s.take(i + 1).drop_last() =~= s.take(i as int));
        assert(s.take(i + 1).last() == side@[i as int]);
        let part: i128 = divide_wide(qty as i128, i as u128 + 1);
        sum = sum + qty as i128;
        weighted = weighted + part;
        i += 1;
    }
    assert(s.take(s.len() as int) =~= s);
    (saturate(sum), saturate(weighted))
}

fn imbalance_of(bids: i64, asks: i64) -> (r: Amount)
    ensures
        r.units == imbalance(bids as int, asks as int),
{
    let total: i128 = bids as i128 + asks as i128;
    if total > 0 {
        Amount { units: share_of(bids as i128 - asks as i128, total as u128) }
    } else {
        Amount::zero()
    }
}

/// Whether these are the volumes of the first levels of a book and how they
/// lean.
pub open spec fn weighs_book(
    bids: Seq<(Amount, Amount)>,
    asks: Seq<(Amount, Amount)>,
    levels: usize,
    r: OrderBookImbalance,
) -> bool {
    &&& r.bid_volume.units == saturated(volume(first(bids, levels as int)))
    &&& r.ask_volume.units == saturated(volume(first(asks, levels as int)))
    &&& r.imbalance_ratio.units == imbalance(r.bid_volume.units as int, r.ask_volume.units as int)
    &&& r.weighted_imbalance.units == imbalance(
        saturated(weighted_volume(first(bids, levels as int))),
        saturated(weighted_volume(first(asks, levels as int))),
    )
}

/// How far the first levels of the two sides differ.
pub fn calculate_orderbook_imbalance(
    bids: &[(Amount, Amount)],
    asks: &[(Amount, Amount)],
    levels: usize,
) -> (r: OrderBookImbalance)
    ensures
        weighs_book(bids@, asks@, levels, r),
{
    let (bid_volume, weighted_bid) = side_volumes(bids, levels);
    let (ask_volume, weighted_ask) = side_volumes(asks, levels);
    OrderBookImbalance {
        bid_volume: Amount { units: bid_volume },
        ask_volume: Amount { units: ask_volume },
        imbalance_ratio: imbalance_of(bid_volume, ask_volume),
        weighted_imbalance: imbalance_of(weighted_bid, weighted_ask),
    }
}

/// A ratio of volumes that are not negative lies from minus one to one.
pub proof fn law_imbalance_bounded(bids: int, asks: int)
    requires
        bids >= 0,
        asks >= 0,
    ensures
        -UNITS_PER_ONE <= imbalance(bids, asks) <= UNITS_PER_ONE,
        bids >= asks ==> imbalance(bids, asks) >= 0,
        bids <= asks ==> imbalance(bids, asks) <= 0,
{
    let t = bids + asks;
    let d = if bids >= asks {
        bids - asks
    } else {
        asks - bids
    };
    if t > 0 {
        assert(0 <= (d * 100_000_000) / t <= 100_000_000) by (nonlinear_arith)
            requires
                0 <= d <= t,
                t > 0,
        ;
    }
}

/// Volume taken by buyers and by sellers, and their difference.
#[derive(Debug, Clone, Copy, PartialEq, Eq, Structural)]
pub struct CvdTracker {
    pub buy_volume: Amount,
    pub sell_volume: Amount,
    pub cvd_value: Amount,
    /// Change of the difference per second.
    pub cvd_rate: Amount,
    /// In seconds.
    pub last_update_ts: u64,
}

impl CvdTracker {
    /// The value is the difference of the two volumes.
    pub open spec fn wf(&self) -> bool {
        self.cvd_value.units == saturated(self.buy_volume.units - self.sell_volume.units)
    }

    /// The volumes once a trade was added.
    pub open spec fn volumes_after(self, quantity: Amount, is_buy: bool) -> (int, int) {
        if is_buy {
            (saturated(self.buy_volume.units + quantity.units), self.sell_volume.units as int)
        } else {
            (self.buy_volume.units as int, saturated(self.sell_volume.units + quantity.units))
        }
    }

    /// The tracker once a trade was added at `now`. The rate follows the change
    /// where the last trade was less than a minute ago.
    pub open spec fn after_trade(self, quantity: Amount, is_buy: bool, now: u64) -> Self {
        let v = self.volumes_after(quantity, is_buy);
        let cvd = saturated(v.0 - v.1);
        let elapsed = now - self.last_update_ts;
        CvdTracker {
            buy_volume: Amount { units: v.0 as i64 },
            sell_volume: Amount { units: v.1 as i64 },
            cvd_value: Amount { units: cvd as i64 },
            cvd_rate: if 0 < elapsed < 60 {
                Amount {
                    units: saturated(
                        truncated_div(cvd - self.cvd_value.units, elapsed),
                    ) as i64,
                }
            } else {
                self.cvd_rate
            },
            last_update_ts: now,
        }
    }

    /// The difference of the volumes as part of their sum; nothing while the
    /// sum is below a thousandth.
    pub open spec fn normalized(self) -> int {
        let total = self.buy_volume.units + self.sell_volume.units;
        if total < 100_000 {
            0
        } else {
            share(self.buy_volume.units - self.sell_volume.units, total)
        }
    }

    /// A tracker made at `now`, in seconds.
    pub fn new_at(now: u64) -> (t: Self)
        ensures
            t.wf(),
            t == (CvdTracker {
                buy_volume: Amount { units: 0 },
                sell_volume: Amount { units: 0 },
                cvd_value: Amount { units: 0 },
                cvd_rate: Amount { units: 0 },
                last_update_ts: now,
            }),
    {
        CvdTracker {
            buy_volume: Amount::zero(),
            sell_volume: Amount::zero(),
            cvd_value: Amount::zero(),
            cvd_rate: Amount::zero(),
            last_update_ts: now,
        }
    }

    /// A tracker without volume.
    pub fn new() -> (t: Self)
        ensures
            t.wf(),
            t == (CvdTracker {
                buy_volume: Amount { units: 0 },
                sell_volume: Amount { units: 0 },
                cvd_value: Amount { units: 0 },
                cvd_rate: Amount { units: 0 },
                last_update_ts: t.last_update_ts,
            }),
    {
        let now: u64 = now_secs();
        Self::new_at(now)
    }

    /// Adds a trade at `now`, in seconds.
    pub fn record_trade_at(&mut self, quantity: Amount, is_buy_aggressor: bool, now: u64)
        ensures
            final(self).wf(),
            *final(self) == old(self).after_trade(quantity, is_buy_aggressor, now),
    {
        if is_buy_aggressor {
            self.buy_volume =
            Amount { units: saturate(self.buy_volume.units as i128 + quantity.units as i128) };
        } else {
            self.sell_volume =
            Amount { units: saturate(self.sell_volume.units as i128 + quantity.units as i128) };
        }
        let old_cvd: i64 = self.cvd_value.units;
        let new_cvd: i64 = saturate(
            self.buy_volume.units as i128 - self.sell_volume.units as i128,
        );
        self.cvd_value = Amount { units: new_cvd };
        if now > self.last_update_ts {
            let elapsed: u64 = now - self.last_update_ts;
            if elapsed < 60 {
                let change: i128 = new_cvd as i128 - old_cvd as i128;
                self.cvd_rate = Amount { units: saturate(divide_truncated(change, elapsed)) };
            }
        }
        self.last_update_ts = now;
    }

    /// Adds a trade.
    pub fn record_trade(&mut self, quantity: Amount, is_buy_aggressor: bool)
        ensures
            final(self).wf(),
            *final(self) == old(self).after_trade(
                quantity,
                is_buy_aggressor,
                final(self).last_update_ts,
            ),
    {
        let now: u64 = now_secs();
        self.record_trade_at(quantity, is_buy_aggressor, now);
    }

    /// The difference of the volumes.
    pub fn get_cvd(&self) -> (r: Amount)
        ensures
            r == self.cvd_value,
    {
        self.cvd_value
    }

    /// The change of the difference per second.
    pub fn get_cvd_rate(&self) -> (r: Amount)
        ensures
            r == self.cvd_rate,
    {
        self.cvd_rate
    }

    /// The difference of the volumes as part of their sum.
    pub fn get_normalized_cvd(&self) -> (r: Amount)
        ensures
            r.units == self.normalized(),
    {
        let buy: i128 = self.buy_volume.units as i128;
        let sell: i128 = self.sell_volume.units as i128;
        let total: i128 = buy + sell;
        if total < 100_000 {
            return Amount::zero();
        }
        Amount { units: share_of(buy - sell, total as u128) }
    }

    /// Sets the volumes, their difference and its rate to zero.
    pub fn reset(&mut self)
        ensures
            final(self).wf(),
            *final(self) == (CvdTracker {
                buy_volume: Amount { units: 0 },
                sell_volume: Amount { units: 0 },
                cvd_value: Amount { units: 0 },
                cvd_rate: Amount { units: 0 },
                ..*old(self)
            }),
    {
        self.buy_volume = Amount::zero();
        self.sell_volume = Amount::zero();
        self.cvd_value = Amount::zero();
        self.cvd_rate = Amount::zero();
    }
}

/// An alpha and the age of its signal. How far it has decayed is for the caller
/// to work out, from the half-life.
#[derive(Debug, Clone, Copy, PartialEq, Eq, Structural)]
pub struct AlphaDecayModel {
    /// In basis points.
    pub alpha: Amount,
    pub half_life_sec: Amount,
    pub signal_age_sec: Amount,
}

impl AlphaDecayModel {
    /// A fresh signal.
    pub fn new(initial_alpha: Amount, half_life_sec: Amount) -> (m: Self)
        ensures
            m == (AlphaDecayModel {
                alpha: initial_alpha,
                half_life_sec,
                signal_age_sec: Amount { units: 0 },
            }),
    {
        AlphaDecayModel { alpha: initial_alpha, half_life_sec, signal_age_sec: Amount::zero() }
    }

    /// Sets the age of the signal.
    pub fn update_age(&mut self, age_seconds: Amount)
        ensures
            *final(self) == (AlphaDecayModel { signal_age_sec: age_seconds, ..*old(self) }),
    {
        self.signal_age_sec = age_seconds;
    }

    /// Replaces the signal by a fresh one.
    pub fn set_new_alpha(&mut self, new_alpha: Amount)
        ensures
            *final(self) == (AlphaDecayModel {
                alpha: new_alpha,
                signal_age_sec: Amount { units: 0 },
                ..*old(self)
            }),
    {
        self.alpha = new_alpha;
        self.signal_age_sec = Amount::zero();
    }
}

/// What kind of order to send.
#[derive(Debug, Clone, Copy, PartialEq, Eq, Structural)]
pub enum ExecutionOrderType {
    LimitPassive,
    LimitNormal,
    LimitAggressive,
    MarketImmediate,
}

/// How to execute.
#[derive(Debug, Clone, Copy, PartialEq, Eq, Structural)]
pub struct ExecutionStrategy {
    /// From zero, passive, to one, aggressive.
    pub aggression_level: Amount,
    pub order_type: ExecutionOrderType,
    /// From the mid price; negative for a better price.
    pub price_offset_bps: i32,
    pub urgency_score: Amount,
    pub expected_slippage_bps: Amount,
    pub confidence: Amount,
}

/// The kind of order for an urgency: one more step at each quarter.
pub open spec fn order_type_for(urgency: int) -> ExecutionOrderType {
    if urgency < 25_000_000 {
        ExecutionOrderType::LimitPassive
    } else if urgency < 50_000_000 {
        ExecutionOrderType::LimitNormal
    } else if urgency < 75_000_000 {
        ExecutionOrderType::LimitAggressive
    } else {
        ExecutionOrderType::MarketImmediate
    }
}

/// The whole basis points of a spread, within the range of `i32`.
pub open spec fn whole_bps(spread: int) -> int {
    between(
        truncated_div(spread, UNITS_PER_ONE as int),
        i32::MIN as int,
        i32::MAX as int,
    )
}

/// How far from the mid price an order goes.
pub open spec fn price_offset(order_type: ExecutionOrderType, spread: int) -> int {
    match order_type {
        ExecutionOrderType::LimitPassive => truncated_div(-whole_bps(spread), 2),
        ExecutionOrderType::LimitNormal => 0,
        ExecutionOrderType::LimitAggressive => truncated_div(whole_bps(spread), 4),
        ExecutionOrderType::MarketImmediate => truncated_div(whole_bps(spread), 2),
    }
}

/// How far an execution has come.
#[derive(Debug, Clone, Copy, PartialEq, Eq, Structural)]
pub struct AdaptiveExecutionStatus {
    pub target_quantity: Amount,
    pub executed_quantity: Amount,
    pub remaining_quantity: Amount,
    pub average_price: Amount,
    pub benchmark_price: Amount,
    pub implementation_shortfall_bps: Amount,
    pub progress_pct: Amount,
    pub current_alpha: Amount,
}

/// Executes one order, and measures it against its benchmark.
#[derive(Debug, Clone, Copy, PartialEq, Eq, Structural)]
pub struct AdaptiveExecutor {
    pub target_quantity: Amount,
    pub executed_quantity: Amount,
    pub avg_price: Amount,
    pub benchmark_price: Amount,
    pub impl_shortfall_bps: Amount,
    pub is_buy: bool,
    pub is_active: bool,
    pub cvd_tracker: CvdTracker,
    pub alpha_model: AlphaDecayModel,
    pub min_urgency_threshold: Amount,
    pub max_urgency_threshold: Amount,
}

/// A number with eight places, no more than one.
pub open spec fn capped(x: int) -> int {
    smaller(x, UNITS_PER_ONE as int)
}

/// The average price once a quantity was filled at a price.
pub open spec fn average_after(avg: int, executed: int, price: int, quantity: int) -> int {
    if executed + quantity > 0 {
        saturated(quotient(avg * executed + price * quantity, executed + quantity))
    } else {
        price
    }
}

impl AdaptiveExecutor {
    /// The thresholds are parts of one, in order.
    pub open spec fn wf(&self) -> bool {
        0 <= self.min_urgency_threshold.units <= self.max_urgency_threshold.units <= UNITS_PER_ONE
    }

    /// What is left to execute; negative where too much was.
    pub open spec fn remaining(self) -> int {
        self.target_quantity.units - self.executed_quantity.units
    }

    /// Urgency from alpha: a hundred basis points are fully urgent.
    pub open spec fn alpha_urgency(alpha: int) -> int {
        capped(magnitude(alpha) as int / 100)
    }

    /// Urgency from the order book: a buyer is less urgent among strong bids, a
    /// seller among strong asks.
    pub open spec fn book_urgency(self, ratio: int) -> int {
        if self.is_buy {
            truncated_div(UNITS_PER_ONE - ratio, 2)
        } else {
            truncated_div(UNITS_PER_ONE + ratio, 2)
        }
    }

    /// Urgency from the volume delta: a buyer is more urgent under buying
    /// pressure, a seller under selling pressure.
    pub open spec fn delta_urgency(self) -> int {
        if self.is_buy {
            truncated_div(UNITS_PER_ONE + self.cvd_tracker.normalized(), 2)
        } else {
            truncated_div(UNITS_PER_ONE - self.cvd_tracker.normalized(), 2)
        }
    }

    /// The executed part of the target.
    pub open spec fn progress(self) -> int {
        if self.target_quantity.units > 0 {
            share(self.executed_quantity.units as int, self.target_quantity.units as int)
        } else {
            0
        }
    }

    /// Urgency from volatility: a tenth is fully urgent.
    pub open spec fn volatility_urgency(volatility: int) -> int {
        capped(10 * volatility)
    }

    /// The weighted urgency, within the thresholds.
    pub open spec fn urgency(self, ratio: int, alpha: int, volatility: int) -> int {
        between(
            truncated_div(
                30 * Self::alpha_urgency(alpha) + 25 * self.book_urgency(ratio) + 20
                    * self.delta_urgency() + 15 * self.progress() + 10 * Self::volatility_urgency(
                    volatility,
                ),
                100,
            ),
            self.min_urgency_threshold.units as int,
            self.max_urgency_threshold.units as int,
        )
    }

    /// The part of the target that is left. Of no target, nothing is left, or
    /// the largest part in range where less than nothing was executed.
    pub open spec fn open_part(self) -> int {
        if self.target_quantity.units != 0 {
            larger(ratio(self.remaining(), self.target_quantity.units as int), 0)
        } else if self.remaining() > 0 {
            i64::MAX as int
        } else {
            0
        }
    }

    /// Half the spread, and five times the volatility for what is left.
    pub open spec fn slippage(self, spread: int, volatility: int) -> int {
        saturated(
            truncated_div(spread, 2) + 5 * product(self.open_part(), volatility),
        )
    }

    /// How to execute in a market.
    pub open spec fn strategy(
        self,
        ratio: int,
        alpha: int,
        spread: int,
        volatility: int,
    ) -> ExecutionStrategy {
        let u = self.urgency(ratio, alpha, volatility);
        ExecutionStrategy {
            aggression_level: Amount { units: u as i64 },
            order_type: order_type_for(u),
            price_offset_bps: price_offset(order_type_for(u), spread) as i32,
            urgency_score: Amount { units: u as i64 },
            expected_slippage_bps: Amount { units: self.slippage(spread, volatility) as i64 },
            confidence: Amount {
                units: product(UNITS_PER_ONE - u, Self::alpha_urgency(alpha)) as i64,
            },
        }
    }

    /// How much worse than the benchmark an average price is, in basis points;
    /// against a benchmark of zero, the end of the range.
    pub open spec fn shortfall(self, avg: int) -> int {
        let b = self.benchmark_price.units as int;
        let worse = if self.is_buy {
            avg - b
        } else {
            b - avg
        };
        if b == 0 {
            end_beside(worse)
        } else {
            saturated(quotient(worse * 1_000_000_000_000, b))
        }
    }

    /// A stopped executor made at `now`, in seconds.
    pub fn new_at(
        target_quantity: Amount,
        benchmark_price: Amount,
        is_buy: bool,
        alpha_half_life_sec: Amount,
        now: u64,
    ) -> (e: Self)
        ensures
            e.wf(),
            e.target_quantity == target_quantity,
            e.executed_quantity.units == 0,
            e.avg_price.units == 0,
            e.benchmark_price == benchmark_price,
            e.impl_shortfall_bps.units == 0,
            e.is_buy == is_buy,
            !e.is_active,
            e.cvd_tracker.wf(),
            e.cvd_tracker == (CvdTracker {
                buy_volume: Amount { units: 0 },
                sell_volume: Amount { units: 0 },
                cvd_value: Amount { units: 0 },
                cvd_rate: Amount { units: 0 },
                last_update_ts: now,
            }),
            e.alpha_model == (AlphaDecayModel {
                alpha: Amount { units: 5_000_000_000 },
                half_life_sec: alpha_half_life_sec,
                signal_age_sec: Amount { units: 0 },
            }),
            e.min_urgency_threshold.units == 20_000_000,
            e.max_urgency_threshold.units == 90_000_000,
    {
        AdaptiveExecutor {
            target_quantity,
            executed_quantity: Amount::zero(),
            avg_price: Amount::zero(),
            benchmark_price,
            impl_shortfall_bps: Amount::zero(),
            is_buy,
            is_active: false,
            cvd_tracker: CvdTracker::new_at(now),
            alpha_model: AlphaDecayModel::new(Amount::whole(50), alpha_half_life_sec),
            min_urgency_threshold: Amount { units: 20_000_000 },
            max_urgency_threshold: Amount { units: 90_000_000 },
        }
    }

    /// A stopped executor.
    pub fn new(
        target_quantity: Amount,
        benchmark_price: Amount,
        is_buy: bool,
        alpha_half_life_sec: Amount,
    ) -> (e: Self)
        ensures
            e.wf(),
            e.target_quantity == target_quantity,
            e.executed_quantity.units == 0,
            e.avg_price.units == 0,
            e.benchmark_price == benchmark_price,
            e.impl_shortfall_bps.units == 0,
            e.is_buy == is_buy,
            !e.is_active,
            e.cvd_tracker.wf(),
            e.cvd_tracker == (CvdTracker {
                buy_volume: Amount { units: 0 },
                sell_volume: Amount { units: 0 },
                cvd_value: Amount { units: 0 },
                cvd_rate: Amount { units: 0 },
                last_update_ts: e.cvd_tracker.last_update_ts,
            }),
            e.alpha_model == (AlphaDecayModel {
                alpha: Amount { units: 5_000_000_000 },
                half_life_sec: alpha_half_life_sec,
                signal_age_sec: Amount { units: 0 },
            }),
            e.min_urgency_threshold.units == 20_000_000,
            e.max_urgency_threshold.units == 90_000_000,
    {
        let now: u64 = now_secs();
        Self::new_at(target_quantity, benchmark_price, is_buy, alpha_half_life_sec, now)
    }

    /// Starts the execution.
    pub fn start(&mut self)
        ensures
            *final(self) == (AdaptiveExecutor { is_active: true, ..*old(self) }),
    {
        self.is_active = true;
    }

    /// Stops the execution.
    pub fn stop(&mut self)
        ensures
            *final(self) == (AdaptiveExecutor { is_active: false, ..*old(self) }),
    {
        self.is_active = false;
    }

    fn urgency_of(&self, ratio: i64, alpha: i64, volatility: i64) -> (r: i64)
        requires
            self.wf(),
        ensures
            r == self.urgency(ratio as int, alpha as int, volatility as int),
            self.min_urgency_threshold.units <= r <= self.max_urgency_threshold.units,
    {
        let one: i128 = UNITS_PER_ONE as i128;
        let alpha_part: i128 = alpha_urgency_of(alpha) as i128;
        let book_part: i128 = if self.is_buy {
            divide_truncated(one - ratio as i128, 2)
        } else {
            divide_truncated(one + ratio as i128, 2)
        };
        let delta: i128 = self.cvd_tracker.get_normalized_cvd().units as i128;
        let delta_part: i128 = if self.is_buy {
            divide_truncated(one + delta, 2)
        } else {
            divide_truncated(one - delta, 2)
        };
        let progress_part: i128 = if self.target_quantity.units > 0 {
            share_of(
                self.executed_quantity.units as i128,
                self.target_quantity.units as u128,
            ) as i128
        } else {
            0
        };
        let wide: i128 = 10 * volatility as i128;
        let volatility_part: i128 = if wide <= one { wide } else { one };
        let sum: i128 = 30 * alpha_part + 25 * book_part + 20 * delta_part + 15 * progress_part
            + 10 * volatility_part;
        let score: i64 = saturate(divide_truncated(sum, 100));
        hold_between(
            score,
            self.min_urgency_threshold.units,
            self.max_urgency_threshold.units,
        )
    }

    fn slippage_of(&self, spread: i64, volatility: i64) -> (r: i64)
        requires
            self.wf(),
        ensures
            r == self.slippage(spread as int, volatility as int),
    {
        let left: i128 = self.target_quantity.units as i128 - self.executed_quantity.units as i128;
        let open: i64 = if self.target_quantity.units != 0 {
            let part: i64 = ratio_of(left, self.target_quantity.units as i128);
            if part > 0 {
                part
            } else {
                0
            }
        } else if left > 0 {
            i64::MAX
        } else {
            0
        };
        let impact: i64 = product_of(open, volatility);
        saturate(divide_truncated(spread as i128, 2) + 5 * impact as i128)
    }

    /// How to execute in a market, given the order book's imbalance, the
    /// spread in basis points, the volatility and the present alpha in basis
    /// points. The price itself does not matter.
    pub fn calculate_strategy(
        &self,
        order_book_imbalance: &OrderBookImbalance,
        current_price: Amount,
        spread_bps: Amount,
        volatility: Amount,
        current_alpha: Amount,
    ) -> (r: ExecutionStrategy)
        requires
            self.wf(),
        ensures
            r == self.strategy(
                order_book_imbalance.imbalance_ratio.units as int,
                current_alpha.units as int,
                spread_bps.units as int,
                volatility.units as int,
            ),
            0 <= r.urgency_score.units <= UNITS_PER_ONE,
    {
        let urgency: i64 = self.urgency_of(
            order_book_imbalance.imbalance_ratio.units,
            current_alpha.units,
            volatility.units,
        );
        let order_type = if urgency < 25_000_000 {
            ExecutionOrderType::LimitPassive
        } else if urgency < 50_000_000 {
            ExecutionOrderType::LimitNormal
        } else if urgency < 75_000_000 {
            ExecutionOrderType::LimitAggressive
        } else {
            ExecutionOrderType::MarketImmediate
        };
        let whole: i128 = divide_truncated(spread_bps.units as i128, UNITS_PER_ONE as u64);
        let bps: i128 = if whole < i32::MIN as i128 {
            i32::MIN as i128
        } else if whole > i32::MAX as i128 {
            i32::MAX as i128
        } else {
            whole
        };
        let offset: i128 = match order_type {
            ExecutionOrderType::LimitPassive => divide_truncated(-bps, 2),
            ExecutionOrderType::LimitNormal => 0,
            ExecutionOrderType::LimitAggressive => divide_truncated(bps, 4),
            ExecutionOrderType::MarketImmediate => divide_truncated(bps, 2),
        };
        ExecutionStrategy {
            aggression_level: Amount { units: urgency },
            order_type,
            price_offset_bps: offset as i32,
            urgency_score: Amount { units: urgency },
            expected_slippage_bps: Amount {
                units: self.slippage_of(spread_bps.units, volatility.units),
            },
            confidence: Amount {
                units: product_of(UNITS_PER_ONE - urgency, alpha_urgency_of(current_alpha.units)),
            },
        }
    }

    /// The order once a quantity was filled at a price.
    pub open spec fn after_fill(self, quantity: Amount, price: Amount) -> Self {
        let avg = average_after(
            self.avg_price.units as int,
            self.executed_quantity.units as int,
            price.units as int,
            quantity.units as int,
        );
        AdaptiveExecutor {
            executed_quantity: Amount {
                units: saturated(self.executed_quantity.units + quantity.units) as i64,
            },
            avg_price: Amount { units: avg as i64 },
            impl_shortfall_bps: Amount { units: self.shortfall(avg) as i64 },
            ..self
        }
    }

    /// Records a fill: the average price, and how it compares with the
    /// benchmark. Zero does not compare with zero.
    pub fn record_fill(&mut self, quantity: Amount, price: Amount)
        requires
            old(self).benchmark_price.units != 0 || average_after(
                old(self).avg_price.units as int,
                old(self).executed_quantity.units as int,
                price.units as int,
                quantity.units as int,
            ) != 0,
        ensures
            *final(self) == old(self).after_fill(quantity, price),
    {
        let executed: i128 = self.executed_quantity.units as i128 + quantity.units as i128;
        let average: i64 = if executed > 0 {
            let mut sum = ProductSum::new();
            sum.add_product(self.avg_price.units, self.executed_quantity.units);
            sum.add_product(price.units, quantity.units);
            sum.divided_by(executed)
        } else {
            price.units
        };
        self.executed_quantity = Amount { units: saturate(executed) };
        self.avg_price = Amount { units: average };
        let a: i128 = average as i128;
        let b: i128 = self.benchmark_price.units as i128;
        let worse: i128 = if self.is_buy { a - b } else { b - a };
        let shortfall: i64 = if b == 0 {
            if worse < 0 {
                i64::MIN
            } else {
                i64::MAX
            }
        } else {
            saturate(
                if b < 0 {
                    divide_wide(-(worse * 1_000_000_000_000), (-b) as u128)
                } else {
                    divide_wide(worse * 1_000_000_000_000, b as u128)
                },
            )
        };
        self.impl_shortfall_bps = Amount { units: shortfall };
    }

    /// What is left to execute.
    pub fn get_remaining(&self) -> (r: Amount)
        ensures
            r.units == saturated(self.remaining()),
    {
        Amount {
            units: saturate(
                self.target_quantity.units as i128 - self.executed_quantity.units as i128,
            ),
        }
    }

    /// How much worse than the benchmark the fills are, in basis points.
    pub fn get_impl_shortfall_bps(&self) -> (r: Amount)
        ensures
            r == self.impl_shortfall_bps,
    {
        self.impl_shortfall_bps
    }

    /// How far the execution has come, given the present alpha.
    pub fn get_status(&self, current_alpha: Amount) -> (r: AdaptiveExecutionStatus)
        ensures
            r == (AdaptiveExecutionStatus {
                target_quantity: self.target_quantity,
                executed_quantity: self.executed_quantity,
                remaining_quantity: Amount { units: saturated(self.remaining()) as i64 },
                average_price: self.avg_price,
                benchmark_price: self.benchmark_price,
                implementation_shortfall_bps: self.impl_shortfall_bps,
                progress_pct: Amount {
                    units: progress_pct(
                        self.executed_quantity.units as int,
                        self.target_quantity.units as int,
                    ) as i64,
                },
                current_alpha,
            }),
    {
        let total: i64 = self.target_quantity.units;
        let executed: i64 = self.executed_quantity.units;
        let progress: i64 = if total > 0 {
            share_of(100 * executed as i128, total as u128)
        } else {
            0
        };
        AdaptiveExecutionStatus {
            target_quantity: self.target_quantity,
            executed_quantity: self.executed_quantity,
            remaining_quantity: self.get_remaining(),
            average_price: self.avg_price,
            benchmark_price: self.benchmark_price,
            implementation_shortfall_bps: self.impl_shortfall_bps,
            progress_pct: Amount { units: progress },
            current_alpha,
        }
    }

    /// Adds a trade of the market.
    pub fn record_cvd_trade(&mut self, quantity: Amount, is_buy_aggressor: bool)
        ensures
            *final(self) == (AdaptiveExecutor {
                cvd_tracker: old(self).cvd_tracker.after_trade(
                    quantity,
                    is_buy_aggressor,
                    final(self).cvd_tracker.last_update_ts,
                ),
                ..*old(self)
            }),
    {
        self.cvd_tracker.record_trade(quantity, is_buy_aggressor);
    }

    /// Replaces the alpha by a fresh one.
    pub fn update_alpha(&mut self, new_alpha_bps: Amount)
        ensures
            *final(self) == (AdaptiveExecutor {
                alpha_model: AlphaDecayModel {
                    alpha: new_alpha_bps,
                    signal_age_sec: Amount { units: 0 },
                    ..old(self).alpha_model
                },
                ..*old(self)
            }),
    {
        self.alpha_model.set_new_alpha(new_alpha_bps);
    }

    /// Sets the age of the alpha.
    pub fn update_signal_age(&mut self, age_seconds: Amount)
        ensures
            *final(self) == (AdaptiveExecutor {
                alpha_model: AlphaDecayModel {
                    signal_age_sec: age_seconds,
                    ..old(self).alpha_model
                },
                ..*old(self)
            }),
    {
        self.alpha_model.update_age(age_seconds);
    }
}

fn alpha_urgency_of(alpha: i64) -> (r: i64)
    ensures
        r == AdaptiveExecutor::alpha_urgency(alpha as int),
        0 <= r <= UNITS_PER_ONE,
{
    let size: u64 = if alpha < 0 { (-(alpha as i128)) as u64 } else { alpha as u64 };
    let part: u64 = size / 100;
    if part <= UNITS_PER_ONE as u64 {
        part as i64
    } else {
        UNITS_PER_ONE
    }
}

/// The urgency always lies within the executor's thresholds.
pub proof fn law_urgency_bounded(e: AdaptiveExecutor, ratio: int, alpha: int, volatility: int)
    requires
        e.wf(),
    ensures
        e.min_urgency_threshold.units <= e.urgency(ratio, alpha, volatility)
            <= e.max_urgency_threshold.units,
{
}

/// The average price after a fill of no negative quantity lies between the old
/// average and the price of the fill.
pub proof fn law_average_between(avg: int, executed: int, price: int, quantity: int)
    requires
        fits(avg),
        fits(price),
        executed >= 0,
        quantity >= 0,
        executed + quantity > 0,
    ensures
        smaller(avg, price) <= average_after(avg, executed, price, quantity) <= larger(avg, price),
{
    let low = smaller(avg, price);
    let high = larger(avg, price);
    let n = executed + quantity;
    let sum = avg * executed + price * quantity;
    assert(low * n <= sum <= high * n) by (nonlinear_arith)
        requires
            sum == avg * executed + price * quantity,
            n == executed + quantity,
            low <= avg <= high,
            low <= price <= high,
            executed >= 0,
            quantity >= 0,
    ;
    if sum >= 0 {
        assert(low <= sum / n <= high) by (nonlinear_arith)
            requires
                low * n <= sum <= high * n,
                n > 0,
        ;
    } else {
        assert(low <= -((-sum) / n) <= high) by (nonlinear_arith)
            requires
                low * n <= sum <= high * n,
                n > 0,
        ;
    }
}

/// A buyer who pays more than the benchmark on average has a shortfall that is
/// not negative; a seller, who gets less.
pub proof fn law_shortfall_sign(e: AdaptiveExecutor, avg: int)
    requires
        e.benchmark_price.units > 0,
    ensures
        (e.is_buy && avg >= e.benchmark_price.units) || (!e.is_buy && avg
            <= e.benchmark_price.units) ==> e.shortfall(avg) >= 0,
        (e.is_buy && avg <= e.benchmark_price.units) || (!e.is_buy && avg
            >= e.benchmark_price.units) ==> e.shortfall(avg) <= 0,
{
    let b = e.benchmark_price.units as int;
    let d = if avg >= b {
        avg - b
    } else {
        b - avg
    };
    assert(d * 1_000_000_000_000 / b >= 0) by (nonlinear_arith)
        requires
            d >= 0,
            b > 0,
    ;
    assert((-d) * 1_000_000_000_000 == -(d * 1_000_000_000_000));
}

} // verus!
