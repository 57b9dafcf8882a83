//! Cross and isolated margin of an account, and what price shocks do to it.
//! Prices, quantities and rates are decimal numbers with eight places.

use vstd::prelude::*;
use crate::base::amount::Amount;
use crate::base::numbers::{
    between, divide_wide, end_beside, fits, hold_between, larger, product, product_of, ratio,
    ratio_of, ratio_or_end, ratio_or_end_of, saturate, saturated, truncated_div,
};
use crate::base::table::{distinct_keys, Table};
use crate::base::text::views;

verus! {

/// Side of a position.
#[derive(Debug, Clone, Copy, PartialEq, Eq, Structural)]
pub enum PositionSide {
    Long,
    Short,
}

/// Whether a position shares the account's margin.
#[derive(Debug, Clone, Copy, PartialEq, Eq, Structural)]
pub enum MarginMode {
    Cross,
    Isolated,
}

/// A position.
#[derive(Debug, Clone)]
pub struct Position {
    pub symbol: String,
    pub side: PositionSide,
    pub size: Amount,
    pub entry_price: Amount,
    pub mark_price: Amount,
    pub leverage: Amount,
    pub margin_mode: MarginMode,
}

/// The profit of a size between two prices.
pub open spec fn profit(side: PositionSide, size: int, entry: int, mark: int) -> int {
    saturated(
        truncated_div(
            (match side {
                PositionSide::Long => mark - entry,
                PositionSide::Short => entry - mark,
            }) * size,
            100_000_000,
        ),
    )
}

fn profit_of(side: PositionSide, size: i64, entry: i64, mark: i64) -> (r: i64)
    ensures
        r == profit(side, size as int, entry as int, mark as int),
{
    let d: i128 = match side {
        PositionSide::Long => mark as i128 - entry as i128,
        PositionSide::Short => entry as i128 - mark as i128,
    };
    let s: i128 = size as i128;
    assert(-0x8000_0000_0000_0000 * 0xffff_ffff_ffff_ffff <= d * s <= 0x8000_0000_0000_0000
        * 0xffff_ffff_ffff_ffff) by (nonlinear_arith)
        requires
            -0xffff_ffff_ffff_ffff <= d <= 0xffff_ffff_ffff_ffff,
            -0x8000_0000_0000_0000 <= s <= 0x8000_0000_0000_0000,
    ;
    saturate(divide_wide(d * s, 100_000_000))
}

/// A position without a size has no margin, and needs none.
proof fn lemma_nothing_costs_nothing(p: Position, rate: int)
    requires
        p.size.units == 0,
        p.leverage.units != 0,
    ensures
        p.margin() == 0,
        product(p.value(), rate) == 0,
{
    let mark = p.mark_price.units as int;
    let leverage = p.leverage.units as int;
    assert(0 * mark == 0) by (nonlinear_arith);
    assert(0 * rate == 0) by (nonlinear_arith);
    assert(leverage > 0 ==> 0int / leverage == 0) by (nonlinear_arith);
    assert(leverage < 0 ==> 0int / (-leverage) == 0) by (nonlinear_arith);
}

impl Position {
    /// The profit at the mark price.
    pub open spec fn pnl(self) -> int {
        profit(
            self.side,
            self.size.units as int,
            self.entry_price.units as int,
            self.mark_price.units as int,
        )
    }

    /// The value at the mark price.
    pub open spec fn value(self) -> int {
        product(self.size.units as int, self.mark_price.units as int)
    }

    /// The margin that the leverage asks for; without leverage the end of the
    /// range on the side of the value.
    pub open spec fn margin(self) -> int {
        ratio_or_end(self.value(), self.leverage.units as int)
    }

    /// Whether an amount does not cover the margin. No amount covers the margin
    /// of a value without leverage.
    pub open spec fn costs_more_than(self, amount: int) -> bool {
        if self.leverage.units == 0 {
            self.value() > 0
        } else {
            self.margin() > amount
        }
    }

    /// The profit at the mark price.
    pub fn unrealized_pnl(&self) -> (r: Amount)
        ensures
            r.units == self.pnl(),
    {
        Amount {
            units: profit_of(
                self.side,
                self.size.units,
                self.entry_price.units,
                self.mark_price.units,
            ),
        }
    }

    /// The value at the mark price.
    pub fn position_value(&self) -> (r: Amount)
        ensures
            r.units == self.value(),
    {
        Amount { units: product_of(self.size.units, self.mark_price.units) }
    }

    /// The price at which the margin above maintenance is used up; the mark
    /// price where there is none. Without leverage the margin is without end,
    /// and so is the distance of that price.
    pub open spec fn liquidation(self, rate: int) -> int {
        let spare = self.margin() - product(self.value(), rate);
        if self.leverage.units == 0 {
            if self.value() < 0 {
                self.mark_price.units as int
            } else {
                match self.side {
                    PositionSide::Long => end_beside(-self.size.units),
                    PositionSide::Short => end_beside(self.size.units as int),
                }
            }
        } else if spare <= 0 {
            self.mark_price.units as int
        } else {
            match self.side {
                PositionSide::Long => saturated(
                    self.entry_price.units - ratio(spare, self.size.units as int),
                ),
                PositionSide::Short => saturated(
                    self.entry_price.units + ratio(spare, self.size.units as int),
                ),
            }
        }
    }

    /// The price at which the margin above maintenance is used up. Nothing
    /// without leverage has no such price.
    pub fn liquidation_price(&self, maintenance_margin_rate: Amount) -> (r: Amount)
        requires
            self.leverage.units != 0 || self.value() != 0,
        ensures
            r.units == self.liquidation(maintenance_margin_rate.units as int),
    {
        let value: i64 = self.position_value().units;
        if self.leverage.units == 0 {
            if value < 0 {
                return self.mark_price;
            }
            proof {
                let mark = self.mark_price.units as int;
                assert(0 * mark == 0) by (nonlinear_arith);
                assert(self.size.units != 0);
            }
            return match self.side {
                PositionSide::Long => Amount {
                    units: if self.size.units > 0 {
                        i64::MIN
                    } else {
                        i64::MAX
                    },
                },
                PositionSide::Short => Amount {
                    units: if self.size.units < 0 {
                        i64::MIN
                    } else {
                        i64::MAX
                    },
                },
            };
        }
        let margin: i64 = ratio_of(value as i128, self.leverage.units as i128);
        let kept: i64 = product_of(value, maintenance_margin_rate.units);
        let spare: i128 = margin as i128 - kept as i128;
        if spare <= 0 {
            return self.mark_price;
        }
        proof {
            if self.size.units == 0 {
                lemma_nothing_costs_nothing(*self, maintenance_margin_rate.units as int);
            }
        }
        let per_unit: i64 = ratio_of(spare, self.size.units as i128);
        match self.side {
            PositionSide::Long => Amount {
                units: saturate(self.entry_price.units as i128 - per_unit as i128),
            },
            PositionSide::Short => Amount {
                units: saturate(self.entry_price.units as i128 + per_unit as i128),
            },
        }
    }
}

/// Whether a change of a position's margin was made.
#[derive(Debug, Clone, Copy, PartialEq, Eq, Structural)]
pub enum MarginUpdateResult {
    Success,
    InsufficientMargin,
    InvalidPosition,
    RiskLimitExceeded,
}

/// Positions marked at new prices, where there are any.
pub open spec fn marked(s: Seq<(String, Position)>, prices: Map<Seq<char>, Amount>) -> Seq<
    (String, Position),
> {
    Seq::new(
        s.len(),
        |i: int|
            if prices.contains_key(s[i].1.symbol@) {
                (s[i].0, Position { mark_price: prices[s[i].1.symbol@], ..s[i].1 })
            } else {
                s[i]
            },
    )
}

/// The profit of all positions with new prices, marked at them.
pub open spec fn marked_pnl(s: Seq<(String, Position)>, prices: Map<Seq<char>, Amount>) -> int
    decreases s.len(),
{
    if s.len() == 0 {
        0
    } else {
        marked_pnl(s.drop_last(), prices) + if prices.contains_key(s.last().1.symbol@) {
            (Position { mark_price: prices[s.last().1.symbol@], ..s.last().1 }).pnl()
        } else {
            0
        }
    }
}

/// The value of all positions.
pub open spec fn total_value(s: Seq<(String, Position)>) -> int
    decreases s.len(),
{
    if s.len() == 0 {
        0
    } else {
        total_value(s.drop_last()) + s.last().1.value()
    }
}

/// An account: its money, and what of it serves as margin.
pub struct MarginAccount {
    pub wallet_balance: Amount,
    pub available_balance: Amount,
    pub total_margin_used: Amount,
    pub unrealized_pnl: Amount,
    pub realized_pnl: Amount,
    pub cross_positions: Table<Position>,
    pub isolated_allocations: Table<Amount>,
}

impl MarginAccount {
    /// The tables hold no symbol twice.
    pub open spec fn wf(&self) -> bool {
        &&& self.cross_positions.wf()
        &&& self.isolated_allocations.wf()
    }

    /// The money with the profits that are not realized.
    pub open spec fn equity_units(&self) -> int {
        saturated(self.wallet_balance.units + self.unrealized_pnl.units)
    }

    /// An account without positions.
    pub fn new(initial_balance: Amount) -> (a: Self)
        ensures
            a.wf(),
            a.wallet_balance == initial_balance,
            a.available_balance == initial_balance,
            a.total_margin_used.units == 0,
            a.unrealized_pnl.units == 0,
            a.realized_pnl.units == 0,
            a.cross_positions.entries@.len() == 0,
            a.isolated_allocations.entries@.len() == 0,
    {
        MarginAccount {
            wallet_balance: initial_balance,
            available_balance: initial_balance,
            total_margin_used: Amount::zero(),
            unrealized_pnl: Amount::zero(),
            realized_pnl: Amount::zero(),
            cross_positions: Table::new(),
            isolated_allocations: Table::new(),
        }
    }

    /// Marks positions at new prices, and works out profit and available
    /// balance anew. Positions without a price add no profit.
    pub fn update_mark_prices(&mut self, prices: &Table<Amount>)
        requires
            old(self).wf(),
            prices.wf(),
        ensures
            final(self).wf(),
            final(self).cross_positions.entries@ == marked(
                old(self).cross_positions.entries@,
                prices@,
            ),
            final(self).unrealized_pnl.units == saturated(
                marked_pnl(old(self).cross_positions.entries@, prices@),
            ),
            final(self).available_balance.units == saturated(
                final(self).equity_units() - final(self).total_margin_used.units,
            ),
            final(self).wallet_balance == old(self).wallet_balance,
            final(self).total_margin_used == old(self).total_margin_used,
            final(self).realized_pnl == old(self).realized_pnl,
            final(self).isolated_allocations == old(self).isolated_allocations,
    {
        let ghost all = self.cross_positions.entries@;
        let ghost goal = marked(all, prices@);
        let mut pnl: i128 = 0;
        let mut i: usize = 0;
        assert(all.take(0) =~= Seq::empty());
        while i < self.cross_positions.entries.len()
            invariant
                i <= all.len(),
                all.len() == self.cross_positions.entries@.len(),
                all == old(self).cross_positions.entries@,
                goal == marked(all, prices@),
                prices.wf(),
                forall|k: int| 0 <= k < i ==> self.cross_positions.entries@[k] == goal[k],
                forall|k: int| i <= k < all.len() ==> self.cross_positions.entries@[k] == all[k],
                pnl == marked_pnl(all.take(i as int), prices@),
                -(0x8000_0000_0000_0000 * i) <= pnl <= 0x8000_0000_0000_0000 * i,
                self.wallet_balance == old(self).wallet_balance,
                self.total_margin_used == old(self).total_margin_used,
                self.realized_pnl == old(self).realized_pnl,
                self.isolated_allocations == old(self).isolated_allocations,
            decreases all.len() - i,
        {
            assert(all.take(i + 1).drop_last() =~= all.take(i as int));
            assert(all.take(i + 1).last() == all[i as int]);
            let found: Option<Amount> = match prices.get(
                self.cross_positions.entries[i].1.symbol.as_str(),
            ) {
                Some(p) => Some(*p),
                None => None,
            };
            if let Some(price) = found {
                let entry = &mut self.cross_positions.entries[i];
                entry.1.mark_price = price;
                let gained: i64 = self.cross_positions.entries[i].1.unrealized_pnl().units;
                pnl = pnl + gained as i128;
            }
            i += 1;
        }
        assert(all.take(all.len() as int) =~= all);
        assert(self.cross_positions.entries@ =~= goal);
        proof {
            assert(distinct_keys(goal)) by {
                assert forall|a: int, b: int| 0 <= a < b < goal.len() implies goal[a].0@
                    != goal[b].0@ by {
                    assert(all[a].0@ != all[b].0@);
                }
            }
        }
        self.unrealized_pnl = Amount { units: saturate(pnl) };
        self.recalculate_available_balance();
    }

    fn recalculate_available_balance(&mut self)
        ensures
            final(self).available_balance.units == saturated(
                old(self).equity_units() - old(self).total_margin_used.units,
            ),
            *final(self) == (MarginAccount {
                available_balance: final(self).available_balance,
                ..*old(self)
            }),
    {
        let equity: i64 = self.equity().units;
        self.available_balance =
        Amount { units: saturate(equity as i128 - self.total_margin_used.units as i128) };
    }

    /// Whether this is what the account becomes with a position.
    pub open spec fn takes_on(self, before: Self, position: Position) -> bool {
        &&& self.cross_positions@ == before.cross_positions@.insert(position.symbol@, position)
        &&& self.total_margin_used.units == (if position.leverage.units == 0 {
            i64::MIN as int
        } else {
            saturated(before.total_margin_used.units + position.margin())
        })
        &&& self.available_balance.units == (if position.leverage.units == 0 {
            i64::MAX as int
        } else {
            saturated(before.available_balance.units - position.margin())
        })
    }

    /// The margin in use as part of the equity; without equity the largest
    /// number.
    pub open spec fn used_part(&self) -> int {
        if self.equity_units() <= 0 {
            i64::MAX as int
        } else {
            ratio(self.total_margin_used.units as int, self.equity_units())
        }
    }

    /// Whether the equity does not cover what has to be kept at a rate.
    pub open spec fn at_risk(&self, rate: int) -> bool {
        self.equity_units() < product(self.total_margin_used.units as int, rate)
    }

    /// Adds a position, or replaces that of its symbol, where the available
    /// balance covers its margin. A negative value without leverage takes the
    /// balances to the ends of the range; nothing without leverage has no
    /// margin.
    pub fn update_cross_position(&mut self, position: Position) -> (r: MarginUpdateResult)
        requires
            old(self).wf(),
            position.leverage.units != 0 || position.value() != 0,
        ensures
            final(self).wf(),
            r == (if position.costs_more_than(old(self).available_balance.units as int) {
                MarginUpdateResult::InsufficientMargin
            } else {
                MarginUpdateResult::Success
            }),
            r == MarginUpdateResult::InsufficientMargin ==> *final(self) == *old(self),
            r == MarginUpdateResult::Success ==> final(self).takes_on(*old(self), position),
            final(self).wallet_balance == old(self).wallet_balance,
            final(self).unrealized_pnl == old(self).unrealized_pnl,
            final(self).realized_pnl == old(self).realized_pnl,
            final(self).isolated_allocations == old(self).isolated_allocations,
    {
        let value: i64 = position.position_value().units;
        let leverage: i64 = position.leverage.units;
        let required: i64 = ratio_or_end_of(value as i128, leverage as i128);
        if (leverage == 0 && value > 0) || (leverage != 0 && required
            > self.available_balance.units) {
            return MarginUpdateResult::InsufficientMargin;
        }
        let symbol: String = position.symbol.as_str().to_string();
        let _ = self.cross_positions.insert(symbol, position);
        if leverage == 0 {
            self.total_margin_used = Amount { units: i64::MIN };
            self.available_balance = Amount { units: i64::MAX };
            return MarginUpdateResult::Success;
        }
        self.total_margin_used =
        Amount { units: saturate(self.total_margin_used.units as i128 + required as i128) };
        self.available_balance =
        Amount { units: saturate(self.available_balance.units as i128 - required as i128) };
        MarginUpdateResult::Success
    }

    /// Whether an account is what another becomes when margin is set aside for
    /// a symbol.
    pub open spec fn sets_aside(self, before: Self, symbol: Seq<char>, amount: Amount) -> bool {
        &&& self.isolated_allocations@ == before.isolated_allocations@.insert(symbol, amount)
        &&& self.total_margin_used.units == saturated(
            before.total_margin_used.units + amount.units,
        )
        &&& self.available_balance.units == saturated(
            before.available_balance.units - amount.units,
        )
        &&& self.keeps_rest(before)
    }

    /// Whether an account is what another becomes when an amount set aside for a
    /// symbol is given back.
    pub open spec fn gives_back(self, before: Self, symbol: Seq<char>, amount: Amount) -> bool {
        &&& self.isolated_allocations@ == before.isolated_allocations@.remove(symbol)
        &&& self.total_margin_used.units == saturated(
            before.total_margin_used.units - amount.units,
        )
        &&& self.available_balance.units == saturated(
            before.available_balance.units + amount.units,
        )
        &&& self.keeps_rest(before)
    }

    /// Whether an account has the money, the profits and the positions of
    /// another.
    pub open spec fn keeps_rest(self, before: Self) -> bool {
        &&& self.wallet_balance == before.wallet_balance
        &&& self.unrealized_pnl == before.unrealized_pnl
        &&& self.realized_pnl == before.realized_pnl
        &&& self.cross_positions == before.cross_positions
    }

    /// Sets margin aside for a symbol, where the available balance covers it.
    pub fn allocate_isolated_margin(&mut self, symbol: String, amount: Amount) -> (r: bool)
        requires
            old(self).wf(),
        ensures
            final(self).wf(),
            r == (amount.units <= old(self).available_balance.units),
            r ==> final(self).sets_aside(*old(self), symbol@, amount),
            !r ==> *final(self) == *old(self),
    {
        if amount.units > self.available_balance.units {
            return false;
        }
        let _ = self.isolated_allocations.insert(symbol, amount);
        self.available_balance =
        Amount { units: saturate(self.available_balance.units as i128 - amount.units as i128) };
        self.total_margin_used =
        Amount { units: saturate(self.total_margin_used.units as i128 + amount.units as i128) };
        true
    }

    /// Gives back the margin set aside for a symbol, and tells how much.
    pub fn remove_isolated_margin(&mut self, symbol: &str) -> (r: Option<Amount>)
        requires
            old(self).wf(),
        ensures
            final(self).wf(),
            r == (if old(self).isolated_allocations@.contains_key(symbol@) {
                Some(old(self).isolated_allocations@[symbol@])
            } else {
                None
            }),
            match r {
                Some(amount) => final(self).gives_back(*old(self), symbol@, amount),
                None => *final(self) == *old(self),
            },
    {
        match self.isolated_allocations.remove(symbol) {
            Some(amount) => {
                self.available_balance =
                Amount {
                    units: saturate(self.available_balance.units as i128 + amount.units as i128),
                };
                self.total_margin_used =
                Amount {
                    units: saturate(self.total_margin_used.units as i128 - amount.units as i128),
                };
                Some(amount)
            },
            None => None,
        }
    }

    /// The money with the profits that are not realized.
    pub fn equity(&self) -> (r: Amount)
        ensures
            r.units == self.equity_units(),
    {
        Amount {
            units: saturate(self.wallet_balance.units as i128 + self.unrealized_pnl.units as i128),
        }
    }

    /// The margin used as part of the equity; the largest number where there is
    /// no equity.
    pub fn margin_ratio(&self) -> (r: Amount)
        ensures
            r.units == self.used_part(),
    {
        let equity: i64 = self.equity().units;
        if equity <= 0 {
            return Amount { units: i64::MAX };
        }
        Amount { units: ratio_of(self.total_margin_used.units as i128, equity as i128) }
    }

    /// Whether the equity is below the maintenance part of the margin used.
    pub fn is_at_liquidation_risk(&self, maintenance_margin_rate: Amount) -> (r: bool)
        ensures
            r == self.at_risk(maintenance_margin_rate.units as int),
    {
        self.equity().units < product_of(
            self.total_margin_used.units,
            maintenance_margin_rate.units,
        )
    }

    /// The value of all positions.
    pub fn total_position_value(&self) -> (r: Amount)
        requires
            self.wf(),
        ensures
            r.units == saturated(total_value(self.cross_positions.entries@)),
    {
        let ghost all = self.cross_positions.entries@;
        let mut sum: i128 = 0;
        let mut i: usize = 0;
        assert(all.take(0) =~= Seq::empty());
        while i < self.cross_positions.entries.len()
            invariant
                i <= all.len(),
                all == self.cross_positions.entries@,
                sum == total_value(all.take(i as int)),
                -(0x8000_0000_0000_0000 * i) <= sum <= 0x8000_0000_0000_0000 * i,
            decreases all.len() - i,
        {
            assert(all.take(i + 1).drop_last() =~= all.take(i as int));
            let value: i64 = self.cross_positions.entries[i].1.position_value().units;
            sum = sum + value as i128;
            i += 1;
        }
        assert(all.take(all.len() as int) =~= all);
        Amount { units: saturate(sum) }
    }

    /// The value of all positions.
    pub fn total_leveraged_exposure(&self) -> (r: Amount)
        requires
            self.wf(),
        ensures
            r.units == saturated(total_value(self.cross_positions.entries@)),
    {
        self.total_position_value()
    }
}

/// Whether a position is allowed.
#[derive(Debug, Clone, Copy, PartialEq, Eq, Structural)]
pub enum ValidationResult {
    Valid,
    LeverageExceeded { max: Amount },
    InsufficientMargin { required: Amount },
    RiskLimitExceeded,
}

/// What a price shock does to an account.
#[derive(Debug, Clone)]
pub struct StressTestResult {
    pub original_equity: Amount,
    pub stressed_equity: Amount,
    pub equity_change_pct: Amount,
    pub liquidated_positions: Vec<String>,
    pub price_shock_pct: Amount,
}

/// The rates by symbol, or a default.
pub open spec fn rate_or(rates: Map<Seq<char>, Amount>, symbol: Seq<char>, default_units: int) -> int {
    if rates.contains_key(symbol) {
        rates[symbol].units as int
    } else {
        default_units
    }
}

/// A price after a shock, given in percent.
pub open spec fn shocked(price: int, shock: int) -> int {
    saturated(truncated_div(price * (10_000_000_000 + shock), 10_000_000_000))
}

/// A position's profit after a shock.
pub open spec fn shocked_pnl(p: Position, shock: int) -> int {
    profit(
        p.side,
        p.size.units as int,
        p.entry_price.units as int,
        shocked(p.mark_price.units as int, shock),
    )
}

/// Whether a shock takes a position below its maintenance margin.
pub open spec fn breaks(p: Position, rate: int, shock: int) -> bool {
    shocked_pnl(p, shock) < -product(p.value(), rate)
}

/// The profit of all positions after a shock.
pub open spec fn total_shocked_pnl(s: Seq<(String, Position)>, shock: int) -> int
    decreases s.len(),
{
    if s.len() == 0 {
        0
    } else {
        total_shocked_pnl(s.drop_last(), shock) + shocked_pnl(s.last().1, shock)
    }
}

/// The symbols whose positions a shock takes below their maintenance margin.
pub open spec fn broken(
    s: Seq<(String, Position)>,
    rates: Map<Seq<char>, Amount>,
    shock: int,
) -> Seq<Seq<char>>
    decreases s.len(),
{
    if s.len() == 0 {
        Seq::empty()
    } else {
        let before = broken(s.drop_last(), rates, shock);
        if breaks(s.last().1, rate_or(rates, s.last().0@, 500_000), shock) {
            before.push(s.last().0@)
        } else {
            before
        }
    }
}

fn shock_price(price: i64, shock: i64) -> (r: i64)
    ensures
        r == shocked(price as int, shock as int),
{
    let p: i128 = price as i128;
    let f: i128 = 10_000_000_000 + shock as i128;
    assert(-0x8000_0000_0000_0000 * 0x1_0000_0000_0000_0000 < p * f < 0x8000_0000_0000_0000
        * 0x1_0000_0000_0000_0000) by (nonlinear_arith)
        requires
            -0x8000_0000_0000_0000 <= p <= 0x8000_0000_0000_0000,
            -0x8000_0000_0000_0000 <= f < 0x1_0000_0000_0000_0000,
    ;
    saturate(divide_wide(p * f, 10_000_000_000))
}

fn rate_of(rates: &Table<Amount>, symbol: &str, default_units: i64) -> (r: i64)
    requires
        rates.wf(),
    ensures
        r == rate_or(rates@, symbol@, default_units as int),
{
    match rates.get(symbol) {
        Some(rate) => rate.units,
        None => default_units,
    }
}

/// Rates and limits by symbol.
pub struct MarginSimulator {
    pub maintenance_rates: Table<Amount>,
    pub initial_rates: Table<Amount>,
    pub max_leverage: Table<Amount>,
}

impl MarginSimulator {
    /// The tables hold no symbol twice, and initial rates are positive.
    pub open spec fn wf(&self) -> bool {
        &&& self.maintenance_rates.wf()
        &&& self.initial_rates.wf()
        &&& self.max_leverage.wf()
        &&& forall|symbol: Seq<char>| #[trigger]
            self.initial_rates@.contains_key(symbol) ==> self.initial_rates@[symbol].units > 0
    }

    /// Whether the rates and limits are those of the two main perpetuals.
    pub open spec fn is_usual(&self) -> bool {
        &&& self.maintenance_rates@ == Map::<Seq<char>, Amount>::empty().insert(
            "BTC-PERP"@,
            Amount { units: 500_000 },
        ).insert("ETH-PERP"@, Amount { units: 500_000 })
        &&& self.initial_rates@ == Map::<Seq<char>, Amount>::empty().insert(
            "BTC-PERP"@,
            Amount { units: 1_000_000 },
        ).insert("ETH-PERP"@, Amount { units: 1_000_000 })
        &&& self.max_leverage@ == Map::<Seq<char>, Amount>::empty().insert(
            "BTC-PERP"@,
            Amount { units: 10_000_000_000 },
        ).insert("ETH-PERP"@, Amount { units: 10_000_000_000 })
    }

    /// The rates and limits of the two main perpetuals.
    pub fn new() -> (s: Self)
        ensures
            s.wf(),
            s.is_usual(),
    {
        let mut maintenance_rates: Table<Amount> = Table::new();
        let mut initial_rates: Table<Amount> = Table::new();
        let mut max_leverage: Table<Amount> = Table::new();
        let _ = maintenance_rates.insert("BTC-PERP".to_string(), Amount { units: 500_000 });
        let _ = maintenance_rates.insert("ETH-PERP".to_string(), Amount { units: 500_000 });
        let _ = initial_rates.insert("BTC-PERP".to_string(), Amount { units: 1_000_000 });
        let _ = initial_rates.insert("ETH-PERP".to_string(), Amount { units: 1_000_000 });
        let _ = max_leverage.insert("BTC-PERP".to_string(), Amount { units: 10_000_000_000 });
        let _ = max_leverage.insert("ETH-PERP".to_string(), Amount { units: 10_000_000_000 });
        MarginSimulator { maintenance_rates, initial_rates, max_leverage }
    }

    /// Sets a symbol's maintenance rate: from a thousandth to a half.
    pub fn set_maintenance_rate(&mut self, symbol: String, rate: Amount)
        requires
            old(self).wf(),
        ensures
            final(self).wf(),
            final(self).maintenance_rates@ == old(self).maintenance_rates@.insert(
                symbol@,
                Amount { units: between(rate.units as int, 100_000, 50_000_000) as i64 },
            ),
            final(self).initial_rates == old(self).initial_rates,
            final(self).max_leverage == old(self).max_leverage,
    {
        let held: i64 = hold_between(rate.units, 100_000, 50_000_000);
        let _ = self.maintenance_rates.insert(symbol, Amount { units: held });
    }

    /// The maintenance margin of a position.
    pub fn get_maintenance_requirement(&self, position: &Position) -> (r: Amount)
        requires
            self.wf(),
        ensures
            r.units == product(
                position.value(),
                rate_or(self.maintenance_rates@, position.symbol@, 500_000),
            ),
    {
        let rate: i64 = rate_of(&self.maintenance_rates, position.symbol.as_str(), 500_000);
        Amount { units: product_of(position.position_value().units, rate) }
    }

    /// The initial rate of a symbol at a leverage: its own, or one over the
    /// leverage where that is more.
    pub open spec fn initial_rate(&self, leverage: int, symbol: Seq<char>) -> int {
        larger(
            rate_or(self.initial_rates@, symbol, 1_000_000),
            ratio(100_000_000, leverage),
        )
    }

    fn initial_rate_of(&self, leverage: i64, symbol: &str) -> (r: i64)
        requires
            self.wf(),
            leverage != 0,
        ensures
            r == self.initial_rate(leverage as int, symbol@),
    {
        let base: i64 = rate_of(&self.initial_rates, symbol, 1_000_000);
        let by_leverage: i64 = ratio_of(100_000_000, leverage as i128);
        if base >= by_leverage {
            base
        } else {
            by_leverage
        }
    }

    /// The initial margin of a value; without leverage the end of the range on
    /// the side of the value.
    pub open spec fn initial_requirement(&self, value: int, leverage: int, symbol: Seq<char>) -> int {
        if leverage == 0 {
            end_beside(value)
        } else {
            product(value, self.initial_rate(leverage, symbol))
        }
    }

    /// The initial margin of a value. Nothing without leverage has none.
    pub fn get_initial_requirement(
        &self,
        position_value: Amount,
        leverage: Amount,
        symbol: &str,
    ) -> (r: Amount)
        requires
            self.wf(),
            leverage.units != 0 || position_value.units != 0,
        ensures
            r.units == self.initial_requirement(
                position_value.units as int,
                leverage.units as int,
                symbol@,
            ),
    {
        if leverage.units == 0 {
            return Amount { units: ratio_or_end_of(position_value.units as i128, 0) };
        }
        let rate: i64 = self.initial_rate_of(leverage.units, symbol);
        Amount { units: product_of(position_value.units, rate) }
    }

    /// Whether an amount does not cover the initial margin of a position. No
    /// amount covers that of a value without leverage.
    pub open spec fn asks_more_than(&self, position: Position, amount: int) -> bool {
        if position.leverage.units == 0 {
            position.value() > 0
        } else {
            self.initial_requirement(
                position.value(),
                position.leverage.units as int,
                position.symbol@,
            ) > amount
        }
    }

    /// Whether a position is allowed: its leverage first, then its margin, then
    /// the exposure of the account, ten times the equity at most.
    pub open spec fn verdict(&self, account: MarginAccount, position: Position) -> ValidationResult {
        let required = self.initial_requirement(
            position.value(),
            position.leverage.units as int,
            position.symbol@,
        );
        if self.max_leverage@.contains_key(position.symbol@) && position.leverage.units
            > self.max_leverage@[position.symbol@].units {
            ValidationResult::LeverageExceeded { max: self.max_leverage@[position.symbol@] }
        } else if self.asks_more_than(position, account.available_balance.units as int) {
            ValidationResult::InsufficientMargin { required: Amount { units: required as i64 } }
        } else if saturated(total_value(account.cross_positions.entries@)) + position.value() > 10
            * account.equity_units() {
            ValidationResult::RiskLimitExceeded
        } else {
            ValidationResult::Valid
        }
    }

    /// Whether a position is allowed.
    pub fn validate_position(&self, account: &MarginAccount, position: &Position) -> (r:
        ValidationResult)
        requires
            self.wf(),
            account.wf(),
        ensures
            r == self.verdict(*account, *position),
    {
        if let Some(max) = self.max_leverage.get(position.symbol.as_str()) {
            if position.leverage.units > max.units {
                return ValidationResult::LeverageExceeded { max: *max };
            }
        }
        let value: Amount = position.position_value();
        if position.leverage.units != 0 || value.units > 0 {
            let required: Amount = self.get_initial_requirement(
                value,
                position.leverage,
                position.symbol.as_str(),
            );
            if position.leverage.units == 0 || required.units > account.available_balance.units {
                return ValidationResult::InsufficientMargin { required };
            }
        }
        let exposure: i128 = account.total_leveraged_exposure().units as i128 + value.units as i128;
        if exposure > 10 * account.equity().units as i128 {
            return ValidationResult::RiskLimitExceeded;
        }
        ValidationResult::Valid
    }

    /// The profit of all positions after a shock, and the symbols of those that
    /// it takes below their maintenance margin.
    fn shocked_totals(&self, account: &MarginAccount, price_shock_pct: Amount) -> (r: (
        i64,
        Vec<String>,
    ))
        requires
            self.wf(),
            account.wf(),
        ensures
            r.0 == saturated(
                total_shocked_pnl(
                    account.cross_positions.entries@,
                    price_shock_pct.units as int,
                ),
            ),
            views(r.1@) == broken(
                account.cross_positions.entries@,
                self.maintenance_rates@,
                price_shock_pct.units as int,
            ),
    {
        let ghost all = account.cross_positions.entries@;
        let shock: i64 = price_shock_pct.units;
        let mut pnl: i128 = 0;
        let mut liquidated: Vec<String> = Vec::new();
        let mut i: usize = 0;
        assert(all.take(0) =~= Seq::empty());
        assert(views(liquidated@) =~= Seq::empty());
        while i < account.cross_positions.entries.len()
            invariant
                i <= all.len(),
                all == account.cross_positions.entries@,
                self.wf(),
                shock == price_shock_pct.units,
                pnl == total_shocked_pnl(all.take(i as int), shock as int),
                -(0x8000_0000_0000_0000 * i) <= pnl <= 0x8000_0000_0000_0000 * i,
                views(liquidated@) == broken(
                    all.take(i as int),
                    self.maintenance_rates@,
                    shock as int,
                ),
            decreases all.len() - i,
        {
            assert(all.take(i + 1).drop_last() =~= all.take(i as int));
            assert(all.take(i + 1).last() == all[i as int]);
            let symbol: &String = &account.cross_positions.entries[i].0;
            let position: &Position = &account.cross_positions.entries[i].1;
            let price: i64 = shock_price(position.mark_price.units, shock);
            let rate: i64 = rate_of(&self.maintenance_rates, symbol.as_str(), 500_000);
            let gained: i64 = profit_of(
                position.side,
                position.size.units,
                position.entry_price.units,
                price,
            );
            let kept: i64 = product_of(position.position_value().units, rate);
            if (gained as i128) < -(kept as i128) {
                let ghost before = views(liquidated@);
                liquidated.push(symbol.as_str().to_string());
                assert(views(liquidated@) =~= before.push(symbol@));
            }
            pnl = pnl + gained as i128;
            i += 1;
        }
        assert(all.take(all.len() as int) =~= all);
        (saturate(pnl), liquidated)
    }

    /// Whether these are the figures of an account after a shock to all prices.
    pub open spec fn stressed(
        &self,
        account: MarginAccount,
        shock: Amount,
        r: StressTestResult,
    ) -> bool {
        let pnl = saturated(
            total_shocked_pnl(account.cross_positions.entries@, shock.units as int),
        );
        &&& r.original_equity.units == account.equity_units()
        &&& r.stressed_equity.units == saturated(account.wallet_balance.units + pnl)
        &&& r.equity_change_pct.units == ratio_or_end(
            100 * (pnl - account.unrealized_pnl.units),
            account.equity_units(),
        )
        &&& views(r.liquidated_positions@) == broken(
            account.cross_positions.entries@,
            self.maintenance_rates@,
            shock.units as int,
        )
        &&& r.price_shock_pct == shock
    }

    /// The largest size that the available balance covers.
    pub open spec fn safe_size(
        &self,
        account: MarginAccount,
        symbol: Seq<char>,
        leverage: int,
        price: int,
    ) -> int {
        ratio_or_end(self.covered_value(account, leverage, symbol), price)
    }

    /// What a price shock, given in percent, does to an account. Where there is
    /// no equity the change is the end of the range on its side; no change of
    /// no equity has no percentage.
    pub fn stress_test(&self, account: &MarginAccount, price_shock_pct: Amount) -> (r:
        StressTestResult)
        requires
            self.wf(),
            account.wf(),
            account.equity_units() != 0 || saturated(
                total_shocked_pnl(
                    account.cross_positions.entries@,
                    price_shock_pct.units as int,
                ),
            ) != account.unrealized_pnl.units,
        ensures
            self.stressed(*account, price_shock_pct, r),
    {
        let (gained, liquidated) = self.shocked_totals(account, price_shock_pct);
        let pnl: i128 = gained as i128;
        let equity: Amount = account.equity();
        StressTestResult {
            original_equity: equity,
            stressed_equity: Amount { units: saturate(account.wallet_balance.units as i128 + pnl) },
            equity_change_pct: Amount {
                units: ratio_or_end_of(
                    100 * (pnl - account.unrealized_pnl.units as i128),
                    equity.units as i128,
                ),
            },
            liquidated_positions: liquidated,
            price_shock_pct,
        }
    }

    /// The value that the available balance covers: nothing without leverage.
    pub open spec fn covered_value(
        &self,
        account: MarginAccount,
        leverage: int,
        symbol: Seq<char>,
    ) -> int {
        if leverage == 0 {
            0
        } else {
            ratio(account.available_balance.units as int, self.initial_rate(leverage, symbol))
        }
    }

    /// The largest position that the available balance covers at a price; at no
    /// price, the end of the range on its side.
    pub fn max_safe_position_size(
        &self,
        account: &MarginAccount,
        symbol: &str,
        leverage: Amount,
        mark_price: Amount,
    ) -> (r: Amount)
        requires
            self.wf(),
            mark_price.units != 0 || self.covered_value(
                *account,
                leverage.units as int,
                symbol@,
            ) != 0,
        ensures
            r.units == self.safe_size(
                *account,
                symbol@,
                leverage.units as int,
                mark_price.units as int,
            ),
    {
        let notional: i64 = if leverage.units == 0 {
            0
        } else {
            let rate: i64 = self.initial_rate_of(leverage.units, symbol);
            ratio_of(account.available_balance.units as i128, rate as i128)
        };
        Amount { units: ratio_or_end_of(notional as i128, mark_price.units as i128) }
    }
}

impl Default for MarginSimulator {
    fn default() -> (s: Self)
        ensures
            s.wf(),
            s.is_usual(),
    {
        MarginSimulator::new()
    }
}

/// An allowed position respects all three limits.
pub proof fn law_valid_position_respects_limits(
    s: MarginSimulator,
    account: MarginAccount,
    position: Position,
)
    requires
        s.verdict(account, position) == ValidationResult::Valid,
    ensures
        s.max_leverage@.contains_key(position.symbol@) ==> position.leverage.units
            <= s.max_leverage@[position.symbol@].units,
        !s.asks_more_than(position, account.available_balance.units as int),
        saturated(total_value(account.cross_positions.entries@)) + position.value() <= 10
            * account.equity_units(),
{
}

/// What is set aside for a symbol that had nothing is given back in full: the
/// balances and allocations are then what they were, but for the ends of the
/// range.
pub proof fn law_isolated_margin_returns(
    before: MarginAccount,
    held: MarginAccount,
    after: MarginAccount,
    symbol: Seq<char>,
    amount: Amount,
)
    requires
        !before.isolated_allocations@.contains_key(symbol),
        fits(before.total_margin_used.units + amount.units),
        fits(before.available_balance.units - amount.units),
        held.sets_aside(before, symbol, amount),
        after.gives_back(held, symbol, held.isolated_allocations@[symbol]),
    ensures
        after.isolated_allocations@ == before.isolated_allocations@,
        after.available_balance == before.available_balance,
        after.total_margin_used == before.total_margin_used,
        after.keeps_rest(before),
{
    assert(after.isolated_allocations@ =~= before.isolated_allocations@);
}

/// The profits of a long and of a short position of the same size and prices
/// cancel out, but for the ends of the range.
pub proof fn law_opposite_sides_cancel(size: int, entry: int, mark: int)
    requires
        fits(truncated_div((mark - entry) * size, 100_000_000)),
        truncated_div((mark - entry) * size, 100_000_000) > i64::MIN,
    ensures
        profit(PositionSide::Long, size, entry, mark) == -profit(
            PositionSide::Short,
            size,
            entry,
            mark,
        ),
{
    assert((entry - mark) * size == -((mark - entry) * size)) by (nonlinear_arith);
}

} // verus!
