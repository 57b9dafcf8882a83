//! Iceberg orders that size their clips by depth and fill rate, and the search
//! for hidden orders of others. Prices, quantities and shares are decimal
//! numbers with eight places.

use vstd::prelude::*;
use crate::base::amount::{magnitude, Amount, UNITS_PER_ONE};
use crate::base::clock::now_ns;
use crate::base::numbers::{
    between, divide_truncated, hold_between, larger, saturate, saturated, share, share_of,
    smaller, truncated_div,
};
use crate::base::sequences::newest;
use crate::execution::twap_vwap::progress_pct;

verus! {

/// One price level.
#[derive(Debug, Clone, Copy, PartialEq, Eq, Structural)]
pub struct OrderBookLevel {
    pub price: Amount,
    pub quantity: Amount,
    pub order_count: u32,
}

/// An order book at one time.
#[derive(Debug, Clone)]
pub struct OrderBookSnapshot {
    pub bids: Vec<OrderBookLevel>,
    pub asks: Vec<OrderBookLevel>,
    pub timestamp_ns: u64,
    pub spread: Amount,
    pub mid_price: Amount,
}

/// How a hidden order showed itself.
#[derive(Debug, Clone, Copy, PartialEq, Eq, Structural)]
pub enum HiddenLiquidityMethod {
    OrderFlowImbalance,
    QuoteStuffing,
    RefreshDetection,
    SizeAnomaly,
}

/// A sign of a hidden order.
#[derive(Debug, Clone, Copy, PartialEq, Eq, Structural)]
pub struct HiddenLiquiditySignal {
    /// From zero to one.
    pub confidence: Amount,
    pub estimated_hidden_qty: Amount,
    pub price_level: Amount,
    pub is_buy_side: bool,
    pub detection_method: HiddenLiquidityMethod,
}

/// Who took liquidity in a trade.
#[derive(Debug, Clone, Copy, PartialEq, Eq, Structural)]
pub enum AggressorSide {
    Buy,
    Sell,
    Unknown,
}

/// A trade.
#[derive(Debug, Clone, Copy, PartialEq, Eq, Structural)]
pub struct TradeFlowRecord {
    pub timestamp_ns: u64,
    pub price: Amount,
    pub quantity: Amount,
    pub aggressor_side: AggressorSide,
}

/// Quantities up to this, in amount units, count as nothing: a thousandth.
pub const DUST_UNITS: i64 = 100_000;

/// A longer pause between fills, in nanoseconds, does not enter the fill rate.
pub const MAX_PAUSE_NS: u64 = 60_000_000_000;

/// How far an iceberg order has come.
#[derive(Debug, Clone, Copy, PartialEq, Eq, Structural)]
pub struct IcebergStatus {
    pub total_quantity: Amount,
    pub executed_quantity: Amount,
    pub remaining_quantity: Amount,
    pub hidden_remaining: Amount,
    pub current_clip_remaining: Amount,
    pub clips_executed: u64,
    pub fill_rate: Amount,
    pub progress_pct: Amount,
}

/// An order that shows clips, whose size follows the market.
#[derive(Debug, Clone, Copy, PartialEq, Eq, Structural)]
pub struct DynamicIceberg {
    pub total_quantity: Amount,
    pub visible_size: Amount,
    pub min_visible_size: Amount,
    pub max_visible_size: Amount,
    pub hidden_quantity: Amount,
    pub executed_quantity: Amount,
    pub clip_remaining: Amount,
    pub clips_executed: u64,
    /// Quantity filled per second.
    pub fill_rate: Amount,
    pub last_fill_ts: u64,
    pub is_active: bool,
    pub is_buy_side: bool,
}

/// The smoothed fill rate after a fill: the fill enters with three tenths.
pub open spec fn smoothed_rate(rate: int, quantity: int, elapsed_ns: int) -> int {
    let latest = truncated_div(quantity * 1_000_000_000, elapsed_ns);
    saturated(truncated_div(7 * rate + 3 * latest, 10))
}

/// The quantity on levels at `target` or beyond it, seen from a buyer or from a
/// seller.
pub open spec fn depth_beyond(s: Seq<OrderBookLevel>, is_buy: bool, target: Amount) -> int
    decreases s.len(),
{
    if s.len() == 0 {
        0
    } else {
        depth_beyond(s.drop_last(), is_buy, target) + if (is_buy && s.last().price.units
            >= target.units) || (!is_buy && s.last().price.units <= target.units) {
            s.last().quantity.units as int
        } else {
            0
        }
    }
}

/// The first `n` items, or all where there are fewer.
pub open spec fn first<T>(s: Seq<T>, n: int) -> Seq<T> {
    if s.len() > n {
        s.take(n)
    } else {
        s
    }
}

impl DynamicIceberg {
    /// What is left to execute.
    pub open spec fn remaining(self) -> int {
        saturated(self.total_quantity.units - self.executed_quantity.units)
    }

    /// The clip that replaces an empty one.
    pub open spec fn next_clip(self) -> int {
        smaller(self.visible_size.units as int, self.hidden_quantity.units as int)
    }

    /// The fill rate after a fill at `now`.
    pub open spec fn rate_after(self, quantity: Amount, now: u64) -> int {
        if self.last_fill_ts > 0 && 0 < now - self.last_fill_ts < MAX_PAUSE_NS {
            smoothed_rate(
                self.fill_rate.units as int,
                quantity.units as int,
                now - self.last_fill_ts,
            )
        } else {
            self.fill_rate.units as int
        }
    }

    /// The order with a new clip: from the hidden part, or whatever is left.
    pub open spec fn reloaded(self) -> Self {
        if self.hidden_quantity.units > DUST_UNITS {
            DynamicIceberg {
                clip_remaining: Amount { units: self.next_clip() as i64 },
                hidden_quantity: Amount {
                    units: saturated(self.hidden_quantity.units - self.next_clip()) as i64,
                },
                clips_executed: self.clips_executed.wrapping_add(1),
                ..self
            }
        } else {
            DynamicIceberg { clip_remaining: Amount { units: self.remaining() as i64 }, ..self }
        }
    }

    /// The order after a fill at `now`.
    pub open spec fn after_fill(self, quantity: Amount, now: u64) -> Self {
        let counted = DynamicIceberg {
            executed_quantity: Amount {
                units: saturated(self.executed_quantity.units + quantity.units) as i64,
            },
            fill_rate: Amount { units: self.rate_after(quantity, now) as i64 },
            last_fill_ts: now,
            ..self
        };
        let clip = saturated(self.clip_remaining.units - quantity.units);
        if clip <= DUST_UNITS {
            counted.reloaded()
        } else {
            DynamicIceberg { clip_remaining: Amount { units: clip as i64 }, ..counted }
        }
    }

    /// A stopped order; what is not shown is hidden.
    pub fn new(
        total_quantity: Amount,
        initial_visible: Amount,
        min_visible: Amount,
        max_visible: Amount,
        is_buy: bool,
    ) -> (o: Self)
        ensures
            o == (DynamicIceberg {
                total_quantity,
                visible_size: initial_visible,
                min_visible_size: min_visible,
                max_visible_size: max_visible,
                hidden_quantity: Amount {
                    units: larger(
                        saturated(total_quantity.units - initial_visible.units),
                        0,
                    ) as i64,
                },
                executed_quantity: Amount { units: 0 },
                clip_remaining: initial_visible,
                clips_executed: 0,
                fill_rate: Amount { units: 0 },
                last_fill_ts: 0,
                is_active: false,
                is_buy_side: is_buy,
            }),
    {
        let rest: i64 = saturate(total_quantity.units as i128 - initial_visible.units as i128);
        DynamicIceberg {
            total_quantity,
            visible_size: initial_visible,
            min_visible_size: min_visible,
            max_visible_size: max_visible,
            hidden_quantity: Amount { units: if rest > 0 { rest } else { 0 } },
            executed_quantity: Amount::zero(),
            clip_remaining: initial_visible,
            clips_executed: 0,
            fill_rate: Amount::zero(),
            last_fill_ts: 0,
            is_active: false,
            is_buy_side: is_buy,
        }
    }

    /// Starts the order.
    pub fn start(&mut self)
        ensures
            *final(self) == (DynamicIceberg { is_active: true, ..*old(self) }),
    {
        self.is_active = true;
    }

    /// Stops the order.
    pub fn stop(&mut self)
        ensures
            *final(self) == (DynamicIceberg { is_active: false, ..*old(self) }),
    {
        self.is_active = false;
    }

    /// The size that the market sees.
    pub open spec fn shown(self) -> int {
        smaller(self.visible_size.units as int, self.remaining())
    }

    /// The size to show: no more than is left.
    pub fn get_display_quantity(&self) -> (r: Amount)
        ensures
            r.units == self.shown(),
    {
        let remaining: Amount = self.get_remaining();
        if self.visible_size.units <= remaining.units {
            self.visible_size
        } else {
            remaining
        }
    }

    /// Records a fill at `now`; an empty clip is replaced.
    pub fn record_fill_at(&mut self, fill_quantity: Amount, now: u64)
        ensures
            *final(self) == old(self).after_fill(fill_quantity, now),
    {
        self.executed_quantity =
        Amount {
            units: saturate(self.executed_quantity.units as i128 + fill_quantity.units as i128),
        };
        if self.last_fill_ts > 0 && now > self.last_fill_ts {
            let elapsed: u64 = now - self.last_fill_ts;
            if elapsed < MAX_PAUSE_NS {
                let latest: i128 = divide_truncated(
                    fill_quantity.units as i128 * 1_000_000_000,
                    elapsed,
                );
                let rate: i64 = smooth(self.fill_rate.units, latest);
                self.fill_rate = Amount { units: rate };
            }
        }
        self.last_fill_ts = now;
        let left: i64 = saturate(
            self.clip_remaining.units as i128 - fill_quantity.units as i128,
        );
        if left <= DUST_UNITS {
            self.reload_clip();
        } else {
            self.clip_remaining = Amount { units: left };
        }
    }

    /// Records a fill; an empty clip is replaced.
    pub fn record_fill(&mut self, fill_quantity: Amount)
        ensures
            *final(self) == old(self).after_fill(fill_quantity, final(self).last_fill_ts),
    {
        let now: u64 = now_ns();
        self.record_fill_at(fill_quantity, now);
    }

    fn reload_clip(&mut self)
        ensures
            *final(self) == old(self).reloaded(),
    {
        let hidden: i64 = self.hidden_quantity.units;
        if hidden > DUST_UNITS {
            let reload: i64 = if self.visible_size.units <= hidden {
                self.visible_size.units
            } else {
                hidden
            };
            self.clip_remaining = Amount { units: reload };
            self.hidden_quantity = Amount { units: saturate(hidden as i128 - reload as i128) };
            self.clips_executed = self.clips_executed.wrapping_add(1);
        } else {
            let remaining: Amount = self.get_remaining();
            self.clip_remaining = remaining;
        }
    }

    /// The size to show at a depth: a fifth of the depth, but at least a
    /// fiftieth and at most twice the present size.
    pub open spec fn size_for_depth(size: int, depth: int) -> int {
        let (shown, deep) = if size >= 0 {
            (size, depth)
        } else {
            (-size, -depth)
        };
        let next = if deep >= 10 * shown {
            2 * shown
        } else if 10 * deep <= shown {
            shown / 50
        } else {
            deep / 5
        };
        if size >= 0 {
            next
        } else {
            -next
        }
    }

    /// The levels that a fill would come from: the five best of the other side.
    pub open spec fn facing_levels(self, book: OrderBookSnapshot) -> Seq<OrderBookLevel> {
        if self.is_buy_side {
            book.asks@
        } else {
            book.bids@
        }
    }

    /// The order with its clip sized for the depth that it meets, within its
    /// bounds.
    pub open spec fn sized_for_book(self, book: OrderBookSnapshot, target: Amount) -> Self {
        if self.facing_levels(book).len() == 0 {
            self
        } else {
            DynamicIceberg {
                visible_size: Amount {
                    units: between(
                        Self::size_for_depth(
                            self.visible_size.units as int,
                            depth_beyond(
                                first(self.facing_levels(book), 5),
                                self.is_buy_side,
                                target,
                            ),
                        ),
                        self.min_visible_size.units as int,
                        self.max_visible_size.units as int,
                    ) as i64,
                },
                ..self
            }
        }
    }

    /// The order with its clip sized for the rate of its fills, within its
    /// bounds.
    pub open spec fn sized_for_rate(self, target: Amount) -> Self {
        if self.fill_rate.units <= 0 || target.units <= 0 {
            self
        } else {
            DynamicIceberg {
                visible_size: Amount {
                    units: between(
                        Self::size_for_rate(
                            self.visible_size.units as int,
                            self.fill_rate.units as int,
                            target.units as int,
                        ),
                        self.min_visible_size.units as int,
                        self.max_visible_size.units as int,
                    ) as i64,
                },
                ..self
            }
        }
    }

    /// Sets the size to show by the depth at a price, within the order's
    /// bounds. Without levels on the other side nothing changes.
    pub fn adjust_visible_size(&mut self, order_book: &OrderBookSnapshot, target_price: Amount)
        requires
            old(self).facing_levels(*order_book).len() > 0 ==> old(self).min_visible_size.units
                <= old(self).max_visible_size.units,
        ensures
            *final(self) == old(self).sized_for_book(*order_book, target_price),
    {
        let levels: &Vec<OrderBookLevel> = if self.is_buy_side {
            &order_book.asks
        } else {
            &order_book.bids
        };
        if levels.len() == 0 {
            return;
        }
        let depth: i128 = depth_at(levels, self.is_buy_side, target_price);
        let negative: bool = self.visible_size.units < 0;
        let (shown, deep): (i128, i128) = if negative {
            (-(self.visible_size.units as i128), -depth)
        } else {
            (self.visible_size.units as i128, depth)
        };
        let next: i128 = if deep >= 10 * shown {
            2 * shown
        } else if 10 * deep <= shown {
            (shown as u128 / 50) as i128
        } else {
            (deep as u128 / 5) as i128
        };
        let target: i128 = if negative { -next } else { next };
        let bounded: i64 = hold_between(
            saturate(target),
            self.min_visible_size.units,
            self.max_visible_size.units,
        );
        self.visible_size = Amount { units: bounded };
    }

    /// A size for a fill rate: a fifth less above twice the target, a fifth
    /// more below half of it.
    pub open spec fn size_for_rate(size: int, rate: int, target: int) -> int {
        if rate > 2 * target {
            truncated_div(4 * size, 5)
        } else if 2 * rate < target {
            truncated_div(6 * size, 5)
        } else {
            size
        }
    }

    /// Sets the size to show by the fill rate, within the order's bounds.
    /// Without a rate or a target nothing changes.
    pub fn adjust_based_on_fill_rate(&mut self, target_fill_rate: Amount)
        requires
            old(self).fill_rate.units > 0 && target_fill_rate.units > 0 ==> old(
                self,
            ).min_visible_size.units <= old(self).max_visible_size.units,
        ensures
            *final(self) == old(self).sized_for_rate(target_fill_rate),
    {
        let rate: i128 = self.fill_rate.units as i128;
        let target: i128 = target_fill_rate.units as i128;
        if rate <= 0 || target <= 0 {
            return;
        }
        let size: i128 = self.visible_size.units as i128;
        let adjusted: i128 = if rate > 2 * target {
            divide_truncated(4 * size, 5)
        } else if 2 * rate < target {
            divide_truncated(6 * size, 5)
        } else {
            size
        };
        let bounded: i64 = hold_between(
            saturate(adjusted),
            self.min_visible_size.units,
            self.max_visible_size.units,
        );
        self.visible_size = Amount { units: bounded };
    }

    /// Whether less than a thousandth is left.
    pub fn is_complete(&self) -> (r: bool)
        ensures
            r == (self.remaining() < DUST_UNITS),
    {
        self.get_remaining().units < DUST_UNITS
    }

    /// What is left to execute.
    pub fn get_remaining(&self) -> (r: Amount)
        ensures
            r.units == self.remaining(),
    {
        Amount {
            units: saturate(
                self.total_quantity.units as i128 - self.executed_quantity.units as i128,
            ),
        }
    }

    /// How far the order has come.
    pub fn get_status(&self) -> (r: IcebergStatus)
        ensures
            r == (IcebergStatus {
                total_quantity: self.total_quantity,
                executed_quantity: self.executed_quantity,
                remaining_quantity: Amount { units: self.remaining() as i64 },
                hidden_remaining: self.hidden_quantity,
                current_clip_remaining: self.clip_remaining,
                clips_executed: self.clips_executed,
                fill_rate: self.fill_rate,
                progress_pct: Amount {
                    units: progress_pct(
                        self.executed_quantity.units as int,
                        self.total_quantity.units as int,
                    ) as i64,
                },
            }),
    {
        let total: i64 = self.total_quantity.units;
        let executed: i64 = self.executed_quantity.units;
        let progress: i64 = if total > 0 {
            share_of(100 * executed as i128, total as u128)
        } else {
            0
        };
        IcebergStatus {
            total_quantity: self.total_quantity,
            executed_quantity: self.executed_quantity,
            remaining_quantity: self.get_remaining(),
            hidden_remaining: self.hidden_quantity,
            current_clip_remaining: self.clip_remaining,
            clips_executed: self.clips_executed,
            fill_rate: self.fill_rate,
            progress_pct: Amount { units: progress },
        }
    }
}

fn smooth(rate: i64, latest: i128) -> (r: i64)
    requires
        -0x4_0000_0000_0000_0000_0000_0000 <= latest <= 0x4_0000_0000_0000_0000_0000_0000,
    ensures
        r == saturated(truncated_div(7 * rate + 3 * latest, 10)),
{
    saturate(divide_truncated(7 * rate as i128 + 3 * latest, 10))
}

fn depth_at(levels: &Vec<OrderBookLevel>, is_buy: bool, target: Amount) -> (r: i128)
    ensures
        r == depth_beyond(first(levels@, 5), is_buy, target),
        -0x4_0000_0000_0000_0000 <= r <= 0x4_0000_0000_0000_0000,
{
    let mut depth: i128 = 0;
    let mut i: usize = 0;
    let ghost s = first(levels@, 5);
    assert(s.take(0) =~= Seq::empty());
    while i < levels.len() && i < 5
        invariant
            i <= s.len(),
            s == first(levels@, 5),
            depth == depth_beyond(s.take(i as int), is_buy, target),
            -(0x8000_0000_0000_0000 * i) <= depth <= 0x8000_0000_0000_0000 * i,
        decreases 5 - i,
    {
        let level = &levels[i];
        assert(s.take(i + 1).drop_last() =~= s.take(i as int));
        if (is_buy && level.price.units >= target.units) || (!is_buy && level.price.units
            <= target.units) {
            depth = depth + level.quantity.units as i128;
        }
        i += 1;
    }
    assert(s.take(s.len() as int) =~= s);
    depth
}

/// While the hidden part lasts, filling the clip exactly keeps what is
/// executed, shown and hidden equal to the whole order.
pub proof fn law_full_clip_conserves(o: DynamicIceberg, now: u64)
    requires
        o.executed_quantity.units + o.clip_remaining.units + o.hidden_quantity.units
            == o.total_quantity.units,
        o.clip_remaining.units >= 0,
        o.executed_quantity.units >= 0,
        o.hidden_quantity.units > DUST_UNITS,
        o.visible_size.units > 0,
    ensures
        ({
            let n = o.after_fill(o.clip_remaining, now);
            n.executed_quantity.units + n.clip_remaining.units + n.hidden_quantity.units
                == n.total_quantity.units
        }),
{
}

/// Whether a level has the size of an earlier one, within a tenth.
pub open spec fn same_size(level: OrderBookLevel, earlier: OrderBookLevel) -> bool {
    10 * magnitude(earlier.quantity.units - level.quantity.units) < larger(
        level.quantity.units as int,
        DUST_UNITS as int,
    )
}

/// How many of the last `n` books before the latest had a level of the same
/// size at the same place.
pub open spec fn refreshes(
    history: Seq<Vec<OrderBookLevel>>,
    idx: int,
    level: OrderBookLevel,
    n: int,
) -> int
    decreases n,
{
    if n <= 0 {
        0
    } else {
        let book = history[history.len() - 1 - n]@;
        refreshes(history, idx, level, n - 1) + if idx < book.len() && same_size(
            level,
            book[idx],
        ) {
            1int
        } else {
            0
        }
    }
}

/// How many earlier books are looked at: four at most.
pub open spec fn books_back(len: int) -> int {
    smaller(len, 5) - 1
}

/// The signs of reloaded orders among the first levels of a book.
pub open spec fn refresh_signals(history: Seq<Vec<OrderBookLevel>>, s: Seq<OrderBookLevel>) -> Seq<
    HiddenLiquiditySignal,
>
    decreases s.len(),
{
    if s.len() == 0 {
        Seq::empty()
    } else {
        let level = s.last();
        let n = refreshes(history, s.len() - 1, level, books_back(history.len() as int));
        let before = refresh_signals(history, s.drop_last());
        if n >= 2 {
            before.push(
                HiddenLiquiditySignal {
                    confidence: Amount { units: (n * 20_000_000) as i64 },
                    estimated_hidden_qty: Amount {
                        units: saturated(level.quantity.units * n) as i64,
                    },
                    price_level: level.price,
                    is_buy_side: true,
                    detection_method: HiddenLiquidityMethod::RefreshDetection,
                },
            )
        } else {
            before
        }
    }
}

/// The quantity that one side took in trades.
pub open spec fn taken_by(s: Seq<TradeFlowRecord>, side: AggressorSide) -> int
    decreases s.len(),
{
    if s.len() == 0 {
        0
    } else {
        taken_by(s.drop_last(), side) + if s.last().aggressor_side == side {
            s.last().quantity.units as int
        } else {
            0
        }
    }
}

/// The sign in a one-sided flow of trades: where one side took more than seven
/// tenths, an order of the other side may hide.
pub open spec fn flow_signal(buys: int, sells: int, mid_price: Amount) -> Seq<
    HiddenLiquiditySignal,
> {
    let total = buys + sells;
    if total < DUST_UNITS {
        Seq::empty()
    } else if 10 * buys > 7 * total {
        seq![
            HiddenLiquiditySignal {
                confidence: Amount { units: share(buys - sells, total) as i64 },
                estimated_hidden_qty: Amount {
                    units: saturated(truncated_div(buys - sells, 2)) as i64,
                },
                price_level: mid_price,
                is_buy_side: false,
                detection_method: HiddenLiquidityMethod::OrderFlowImbalance,
            },
        ]
    } else if 10 * buys < 3 * total {
        seq![
            HiddenLiquiditySignal {
                confidence: Amount { units: share(sells - buys, total) as i64 },
                estimated_hidden_qty: Amount {
                    units: saturated(truncated_div(sells - buys, 2)) as i64,
                },
                price_level: mid_price,
                is_buy_side: true,
                detection_method: HiddenLiquidityMethod::OrderFlowImbalance,
            },
        ]
    } else {
        Seq::empty()
    }
}

/// The signs in a book's recent trades.
pub open spec fn flow_signals(trades: Seq<TradeFlowRecord>, mid_price: Amount) -> Seq<
    HiddenLiquiditySignal,
> {
    let recent = newest(trades, 50);
    flow_signal(
        taken_by(recent, AggressorSide::Buy),
        taken_by(recent, AggressorSide::Sell),
        mid_price,
    )
}

/// Whether a level holds few orders that are large on average: fewer than five
/// of more than ten each.
pub open spec fn unusual(level: OrderBookLevel) -> bool {
    level.order_count < 5 && level.quantity.units > 1_000_000_000 * larger(
        level.order_count as int,
        1,
    )
}

/// The sign in an unusual level.
pub open spec fn anomaly_signal(level: OrderBookLevel, is_buy_side: bool) -> HiddenLiquiditySignal {
    HiddenLiquiditySignal {
        confidence: Amount {
            units: smaller(
                level.quantity.units as int / (100 * larger(level.order_count as int, 1)),
                UNITS_PER_ONE as int,
            ) as i64,
        },
        estimated_hidden_qty: Amount { units: (level.quantity.units as int / 2) as i64 },
        price_level: level.price,
        is_buy_side,
        detection_method: HiddenLiquidityMethod::SizeAnomaly,
    }
}

/// The signs in the unusual levels of one side.
pub open spec fn anomaly_signals(s: Seq<OrderBookLevel>, is_buy_side: bool) -> Seq<
    HiddenLiquiditySignal,
>
    decreases s.len(),
{
    if s.len() == 0 {
        Seq::empty()
    } else if unusual(s.last()) {
        anomaly_signals(s.drop_last(), is_buy_side).push(anomaly_signal(s.last(), is_buy_side))
    } else {
        anomaly_signals(s.drop_last(), is_buy_side)
    }
}

/// All signs in a book, given the books and trades before.
pub open spec fn all_signals(
    history: Seq<Vec<OrderBookLevel>>,
    trades: Seq<TradeFlowRecord>,
    book: OrderBookSnapshot,
) -> Seq<HiddenLiquiditySignal> {
    (if history.len() < 3 {
        Seq::empty()
    } else {
        refresh_signals(history, first(book.bids@, 10))
    }) + flow_signals(trades, book.mid_price) + anomaly_signals(first(book.bids@, 10), true)
        + anomaly_signals(first(book.asks@, 10), false)
}

/// Searches books and trades for hidden orders.
#[derive(Debug, Clone)]
pub struct HiddenLiquidityDetector {
    pub lookback_window: usize,
    pub bid_history: Vec<Vec<OrderBookLevel>>,
    pub ask_history: Vec<Vec<OrderBookLevel>>,
    pub trade_flow: Vec<TradeFlowRecord>,
    pub signals: Vec<HiddenLiquiditySignal>,
}

/// Whether the confidence at `i` is the highest, and no later one equals it.
pub open spec fn is_strongest(s: Seq<HiddenLiquiditySignal>, i: int) -> bool {
    &&& 0 <= i < s.len()
    &&& forall|j: int|
        0 <= j < s.len() ==> (#[trigger] s[j]).confidence.units <= s[i].confidence.units && (j > i
            ==> s[j].confidence.units < s[i].confidence.units)
}

impl HiddenLiquidityDetector {
    /// No more is remembered than the lookback window asks.
    pub open spec fn wf(&self) -> bool {
        &&& self.lookback_window * 10 <= usize::MAX
        &&& self.bid_history@.len() <= self.lookback_window
        &&& self.ask_history@.len() <= self.lookback_window
        &&& self.trade_flow@.len() <= self.lookback_window * 10
    }

    /// A detector without memory.
    pub fn new(lookback_window: usize) -> (d: Self)
        requires
            lookback_window * 10 <= usize::MAX,
        ensures
            d.wf(),
            d.lookback_window == lookback_window,
            d.bid_history@.len() == 0,
            d.ask_history@.len() == 0,
            d.trade_flow@.len() == 0,
            d.signals@.len() == 0,
    {
        HiddenLiquidityDetector {
            lookback_window,
            bid_history: Vec::new(),
            ask_history: Vec::new(),
            trade_flow: Vec::new(),
            signals: Vec::new(),
        }
    }

    /// Remembers a book; the oldest beyond the window is forgotten.
    pub fn add_orderbook_snapshot(&mut self, snapshot: OrderBookSnapshot)
        requires
            old(self).wf(),
        ensures
            final(self).wf(),
            final(self).bid_history@ == newest(
                old(self).bid_history@.push(snapshot.bids),
                old(self).lookback_window as nat,
            ),
            final(self).ask_history@ == newest(
                old(self).ask_history@.push(snapshot.asks),
                old(self).lookback_window as nat,
            ),
            final(self).lookback_window == old(self).lookback_window,
            final(self).trade_flow == old(self).trade_flow,
            final(self).signals == old(self).signals,
    {
        let OrderBookSnapshot { bids, asks, timestamp_ns: _, spread: _, mid_price: _ } = snapshot;
        let ghost grown_bids = self.bid_history@.push(bids);
        let ghost grown_asks = self.ask_history@.push(asks);
        self.bid_history.push(bids);
        self.ask_history.push(asks);
        if self.bid_history.len() > self.lookback_window {
            self.bid_history.remove(0);
        }
        if self.ask_history.len() > self.lookback_window {
            self.ask_history.remove(0);
        }
        assert(self.bid_history@ =~= newest(grown_bids, self.lookback_window as nat));
        assert(self.ask_history@ =~= newest(grown_asks, self.lookback_window as nat));
    }

    /// Remembers a trade; the oldest beyond ten windows is forgotten.
    pub fn add_trade_flow(&mut self, record: TradeFlowRecord)
        requires
            old(self).wf(),
        ensures
            final(self).wf(),
            final(self).trade_flow@ == newest(
                old(self).trade_flow@.push(record),
                (old(self).lookback_window * 10) as nat,
            ),
            final(self).lookback_window == old(self).lookback_window,
            final(self).bid_history == old(self).bid_history,
            final(self).ask_history == old(self).ask_history,
            final(self).signals == old(self).signals,
    {
        let ghost grown = self.trade_flow@.push(record);
        self.trade_flow.push(record);
        if self.trade_flow.len() > self.lookback_window * 10 {
            self.trade_flow.remove(0);
        }
        assert(self.trade_flow@ =~= newest(grown, (self.lookback_window * 10) as nat));
    }

    /// Searches a book for hidden orders, by three methods in turn.
    pub fn detect_hidden_liquidity(&mut self, current_book: &OrderBookSnapshot) -> (r: Vec<
        HiddenLiquiditySignal,
    >)
        ensures
            r@ == all_signals(old(self).bid_history@, old(self).trade_flow@, *current_book),
            final(self).signals@ == r@,
            final(self).lookback_window == old(self).lookback_window,
            final(self).bid_history == old(self).bid_history,
            final(self).ask_history == old(self).ask_history,
            final(self).trade_flow == old(self).trade_flow,
    {
        self.signals.clear();
        self.detect_refresh_patterns(current_book);
        self.detect_order_flow_imbalance(current_book);
        self.detect_size_anomalies(current_book);
        let mut copy: Vec<HiddenLiquiditySignal> = Vec::new();
        let mut i: usize = 0;
        while i < self.signals.len()
            invariant
                i <= self.signals@.len(),
                copy@ == self.signals@.take(i as int),
            decreases self.signals@.len() - i,
        {
            copy.push(self.signals[i]);
            assert(copy@ =~= self.signals@.take(i + 1));
            i += 1;
        }
        assert(copy@ =~= self.signals@);
        assert(copy@ =~= all_signals(
            old(self).bid_history@,
            old(self).trade_flow@,
            *current_book,
        ));
        copy
    }

    fn count_refreshes(&self, level_idx: usize, level: &OrderBookLevel) -> (n: u32)
        requires
            self.bid_history@.len() >= 1,
        ensures
            n == refreshes(
                self.bid_history@,
                level_idx as int,
                *level,
                books_back(self.bid_history@.len() as int),
            ),
            n <= 4,
    {
        let len: usize = self.bid_history.len();
        let end: usize = if len < 5 { len } else { 5 };
        let mut count: u32 = 0;
        let mut i: usize = 1;
        while i < end
            invariant
                1 <= i <= end,
                end == smaller(len as int, 5),
                len == self.bid_history@.len(),
                count == refreshes(self.bid_history@, level_idx as int, *level, i - 1),
                count <= i - 1,
            decreases end - i,
        {
            let book: &Vec<OrderBookLevel> = &self.bid_history[len - 1 - i];
            if level_idx < book.len() {
                let earlier: i128 = book[level_idx].quantity.units as i128;
                let now: i128 = level.quantity.units as i128;
                let apart: i128 = if earlier >= now { earlier - now } else { now - earlier };
                let base: i128 = if now >= DUST_UNITS as i128 { now } else { DUST_UNITS as i128 };
                if 10 * apart < base {
                    count = count + 1;
                }
            }
            i += 1;
        }
        count
    }

    fn detect_refresh_patterns(&mut self, book: &OrderBookSnapshot)
        ensures
            final(self).signals@ == old(self).signals@ + (if old(self).bid_history@.len() < 3 {
                Seq::empty()
            } else {
                refresh_signals(old(self).bid_history@, first(book.bids@, 10))
            }),
            final(self).lookback_window == old(self).lookback_window,
            final(self).bid_history == old(self).bid_history,
            final(self).ask_history == old(self).ask_history,
            final(self).trade_flow == old(self).trade_flow,
    {
        if self.bid_history.len() < 3 {
            assert(self.signals@ + Seq::<HiddenLiquiditySignal>::empty() =~= self.signals@);
            return;
        }
        let ghost s = first(book.bids@, 10);
        let ghost start = self.signals@;
        let mut i: usize = 0;
        assert(s.take(0) =~= Seq::empty());
        assert(start + refresh_signals(self.bid_history@, s.take(0)) =~= start);
        while i < book.bids.len() && i < 10
            invariant
                i <= s.len(),
                s == first(book.bids@, 10),
                self.bid_history@.len() >= 3,
                self.signals@ == start + refresh_signals(self.bid_history@, s.take(i as int)),
                start == old(self).signals@,
                self.lookback_window == old(self).lookback_window,
                self.bid_history == old(self).bid_history,
                self.ask_history == old(self).ask_history,
                self.trade_flow == old(self).trade_flow,
            decreases 10 - i,
        {
            let level: OrderBookLevel = book.bids[i];
            let n: u32 = self.count_refreshes(i, &level);
            let ghost before = refresh_signals(self.bid_history@, s.take(i as int));
            assert(s.take(i + 1).drop_last() =~= s.take(i as int));
            assert(s.take(i + 1).last() == level);
            if n >= 2 {
                let q: i128 = level.quantity.units as i128;
                assert(-0x8000_0000_0000_0000 * 4 <= q * n <= 0x8000_0000_0000_0000 * 4)
                    by (nonlinear_arith)
                    requires
                        -0x8000_0000_0000_0000 <= q <= 0x8000_0000_0000_0000,
                        0 <= n <= 4,
                ;
                let signal = HiddenLiquiditySignal {
                    confidence: Amount { units: n as i64 * 20_000_000 },
                    estimated_hidden_qty: Amount { units: saturate(q * n as i128) },
                    price_level: level.price,
                    is_buy_side: true,
                    detection_method: HiddenLiquidityMethod::RefreshDetection,
                };
                self.signals.push(signal);
                assert(self.signals@ =~= start + before.push(signal));
            }
            i += 1;
        }
        assert(s.take(s.len() as int) =~= s);
    }

    fn detect_order_flow_imbalance(&mut self, book: &OrderBookSnapshot)
        ensures
            final(self).signals@ == old(self).signals@ + flow_signals(
                old(self).trade_flow@,
                book.mid_price,
            ),
            final(self).lookback_window == old(self).lookback_window,
            final(self).bid_history == old(self).bid_history,
            final(self).ask_history == old(self).ask_history,
            final(self).trade_flow == old(self).trade_flow,
    {
        let ghost recent = newest(self.trade_flow@, 50);
        let ghost start = self.signals@;
        let len: usize = self.trade_flow.len();
        let from: usize = if len > 50 { len - 50 } else { 0 };
        let mut buys: i128 = 0;
        let mut sells: i128 = 0;
        let mut i: usize = from;
        assert(recent.take(0) =~= Seq::empty());
        while i < len
            invariant
                from <= i <= len,
                len - from == recent.len(),
                recent.len() <= 50,
                len == self.trade_flow@.len(),
                recent == self.trade_flow@.skip(from as int),
                buys == taken_by(recent.take(i - from), AggressorSide::Buy),
                sells == taken_by(recent.take(i - from), AggressorSide::Sell),
                -(0x8000_0000_0000_0000 * (i - from)) <= buys <= 0x8000_0000_0000_0000 * (i
                    - from),
                -(0x8000_0000_0000_0000 * (i - from)) <= sells <= 0x8000_0000_0000_0000 * (i
                    - from),
            decreases len - i,
        {
            let trade = &self.trade_flow[i];
            assert(recent.take(i - from + 1).drop_last() =~= recent.take(i - from));
            assert(recent.take(i - from + 1).last() == *trade);
            match trade.aggressor_side {
                AggressorSide::Buy => {
                    buys = buys + trade.quantity.units as i128;
                },
                AggressorSide::Sell => {
                    sells = sells + trade.quantity.units as i128;
                },
                AggressorSide::Unknown => {},
            }
            i += 1;
        }
        assert(recent.take(recent.len() as int) =~= recent);
        let total: i128 = buys + sells;
        if total < DUST_UNITS as i128 {
            assert(self.signals@ =~= start + flow_signals(self.trade_flow@, book.mid_price));
            return;
        }
        if 10 * buys > 7 * total {
            self.signals.push(
                HiddenLiquiditySignal {
                    confidence: Amount { units: share_of(buys - sells, total as u128) },
                    estimated_hidden_qty: Amount {
                        units: saturate(divide_truncated(buys - sells, 2)),
                    },
                    price_level: book.mid_price,
                    is_buy_side: false,
                    detection_method: HiddenLiquidityMethod::OrderFlowImbalance,
                },
            );
        } else if 10 * buys < 3 * total {
            self.signals.push(
                HiddenLiquiditySignal {
                    confidence: Amount { units: share_of(sells - buys, total as u128) },
                    estimated_hidden_qty: Amount {
                        units: saturate(divide_truncated(sells - buys, 2)),
                    },
                    price_level: book.mid_price,
                    is_buy_side: true,
                    detection_method: HiddenLiquidityMethod::OrderFlowImbalance,
                },
            );
        }
        assert(self.signals@ =~= start + flow_signals(self.trade_flow@, book.mid_price));
    }

    fn detect_side_anomalies(&mut self, levels: &Vec<OrderBookLevel>, is_buy_side: bool)
        ensures
            final(self).signals@ == old(self).signals@ + anomaly_signals(
                first(levels@, 10),
                is_buy_side,
            ),
            final(self).lookback_window == old(self).lookback_window,
            final(self).bid_history == old(self).bid_history,
            final(self).ask_history == old(self).ask_history,
            final(self).trade_flow == old(self).trade_flow,
    {
        let ghost s = first(levels@, 10);
        let ghost start = self.signals@;
        let mut i: usize = 0;
        assert(s.take(0) =~= Seq::empty());
        assert(start + anomaly_signals(s.take(0), is_buy_side) =~= start);
        while i < levels.len() && i < 10
            invariant
                i <= s.len(),
                s == first(levels@, 10),
                self.signals@ == start + anomaly_signals(s.take(i as int), is_buy_side),
                start == old(self).signals@,
                self.lookback_window == old(self).lookback_window,
                self.bid_history == old(self).bid_history,
                self.ask_history == old(self).ask_history,
                self.trade_flow == old(self).trade_flow,
            decreases 10 - i,
        {
            let level: OrderBookLevel = levels[i];
            let ghost before = anomaly_signals(s.take(i as int), is_buy_side);
            assert(s.take(i + 1).drop_last() =~= s.take(i as int));
            assert(s.take(i + 1).last() == level);
            if level.order_count < 5 {
                let orders: i64 = if level.order_count > 1 { level.order_count as i64 } else { 1 };
                if level.quantity.units > 1_000_000_000 * orders {
                    let quantity: u64 = level.quantity.units as u64;
                    let average: u64 = quantity / (100 * orders as u64);
                    let confidence: i64 = if average < UNITS_PER_ONE as u64 {
                        average as i64
                    } else {
                        UNITS_PER_ONE
                    };
                    let signal = HiddenLiquiditySignal {
                        confidence: Amount { units: confidence },
                        estimated_hidden_qty: Amount { units: (quantity / 2) as i64 },
                        price_level: level.price,
                        is_buy_side,
                        detection_method: HiddenLiquidityMethod::SizeAnomaly,
                    };
                    assert(unusual(level));
                    assert(signal == anomaly_signal(level, is_buy_side));
                    self.signals.push(signal);
                    assert(self.signals@ =~= start + before.push(signal));
                }
            }
            i += 1;
        }
        assert(s.take(s.len() as int) =~= s);
    }

    fn detect_size_anomalies(&mut self, book: &OrderBookSnapshot)
        ensures
            final(self).signals@ == old(self).signals@ + anomaly_signals(first(book.bids@, 10), true)
                + anomaly_signals(first(book.asks@, 10), false),
            final(self).lookback_window == old(self).lookback_window,
            final(self).bid_history == old(self).bid_history,
            final(self).ask_history == old(self).ask_history,
            final(self).trade_flow == old(self).trade_flow,
    {
        self.detect_side_anomalies(&book.bids, true);
        self.detect_side_anomalies(&book.asks, false);
    }

    /// The sign with the highest confidence, and of equals the last.
    pub fn get_strongest_signal(&self) -> (r: Option<&HiddenLiquiditySignal>)
        ensures
            r is None <==> self.signals@.len() == 0,
            r is Some ==> exists|i: int| #[trigger]
                is_strongest(self.signals@, i) && *r->0 == self.signals@[i],
    {
        if self.signals.len() == 0 {
            return None;
        }
        let mut best: usize = 0;
        let mut i: usize = 1;
        assert(is_strongest(self.signals@.take(1), 0));
        while i < self.signals.len()
            invariant
                1 <= i <= self.signals@.len(),
                best < i,
                is_strongest(self.signals@.take(i as int), best as int),
            decreases self.signals@.len() - i,
        {
            let ghost earlier = best as int;
            if self.signals[i].confidence.units >= self.signals[best].confidence.units {
                best = i;
            }
            proof {
                let s = self.signals@.take(i + 1);
                assert forall|j: int| 0 <= j < s.len() implies (
                #[trigger] s[j]).confidence.units <= s[best as int].confidence.units && (j > best
                    ==> s[j].confidence.units < s[best as int].confidence.units) by {
                    if j < i {
                        assert(self.signals@.take(i as int)[j] == s[j]);
                    }
                    assert(self.signals@.take(i as int)[earlier] == s[earlier]);
                }
            }
            i += 1;
        }
        assert(self.signals@.take(self.signals@.len() as int) =~= self.signals@);
        assert(is_strongest(self.signals@, best as int));
        Some(&self.signals[best])
    }

    /// Forgets everything.
    pub fn clear(&mut self)
        requires
            old(self).wf(),
        ensures
            final(self).wf(),
            final(self).bid_history@.len() == 0,
            final(self).ask_history@.len() == 0,
            final(self).trade_flow@.len() == 0,
            final(self).signals@.len() == 0,
            final(self).lookback_window == old(self).lookback_window,
    {
        self.bid_history.clear();
        self.ask_history.clear();
        self.trade_flow.clear();
        self.signals.clear();
    }
}

} // verus!
