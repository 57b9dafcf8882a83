//! What values, margins, profits and prices of liquidation mean, told from
//! sizes and prices.

use vstd::prelude::*;
use crate::base::amount::Amount;
use crate::base::numbers::{product, quotient, ratio, saturated, truncated_div};
use crate::base::rounding::{
    law_division_cuts_off, law_product, law_product_at_end, law_product_rises, law_ratio,
    law_ratio_at_end, lemma_division_rises,
};
use crate::margin::liquidation_calculator::{
    highest_tier, insurance_impact, LiquidationCalculator, LiquidationParams,
};
use crate::margin::margin_simulator::{
    breaks, profit, shocked, shocked_pnl, total_shocked_pnl, total_value, MarginAccount,
    MarginSimulator, Position, PositionSide, ValidationResult,
};

verus! {

/// The value of a position is its size times the mark price, cut off at eight
/// places.
pub proof fn law_position_value(p: Position)
    requires
        p.size.units >= 0,
        p.mark_price.units >= 0,
        p.size.units * p.mark_price.units <= 0x7fff_ffff_ffff_ffff * 100_000_000,
    ensures
        p.value() * 100_000_000 <= p.size.units * p.mark_price.units < (p.value() + 1)
            * 100_000_000,
{
    let a = p.size.units as int;
    let b = p.mark_price.units as int;
    assert(a * b >= 0) by (nonlinear_arith)
        requires
            a >= 0,
            b >= 0,
    ;
    law_product(a, b);
}

/// A long position gains exactly what the price rises on its size, and a short
/// one what it falls, cut off at eight places: above entry a long position has
/// a profit and a short one a loss, and below the other way round.
pub proof fn law_profit_follows_price(size: int, entry: int, mark: int)
    requires
        size >= 0,
        -0x7fff_ffff_ffff_ffff * 100_000_000 <= (mark - entry) * size <= 0x7fff_ffff_ffff_ffff
            * 100_000_000,
    ensures
        ({
            let long = profit(PositionSide::Long, size, entry, mark);
            let short = profit(PositionSide::Short, size, entry, mark);
            &&& short == -long
            &&& mark >= entry ==> long >= 0 && long * 100_000_000 <= (mark - entry) * size < (long
                + 1) * 100_000_000
            &&& mark <= entry ==> short >= 0 && short * 100_000_000 <= (entry - mark) * size < (
            short + 1) * 100_000_000
        }),
{
    let d = (mark - entry) * size;
    assert((entry - mark) * size == -d) by (nonlinear_arith)
        requires
            d == (mark - entry) * size,
    ;
    assert(mark >= entry ==> d >= 0) by (nonlinear_arith)
        requires
            d == (mark - entry) * size,
            size >= 0,
    ;
    assert(mark <= entry ==> d <= 0) by (nonlinear_arith)
        requires
            d == (mark - entry) * size,
            size >= 0,
    ;
    law_division_cuts_off(d, 100_000_000);
    law_division_cuts_off(-d, 100_000_000);
}

/// The margin of a position times its leverage is its value, but for what is
/// cut off.
pub proof fn law_margin_times_leverage(p: Position)
    requires
        p.leverage.units > 0,
        0 <= p.value(),
        p.value() * 100_000_000 <= 0x7fff_ffff_ffff_ffff * p.leverage.units,
    ensures
        0 <= p.margin(),
        p.margin() * p.leverage.units <= p.value() * 100_000_000 < (p.margin() + 1)
            * p.leverage.units,
{
    let l = p.leverage.units as int;
    let v = p.value();
    let m = ratio(v, l);
    assert(-0x8000_0000_0000_0000 * l <= v * 100_000_000) by (nonlinear_arith)
        requires
            l > 0,
            v >= 0,
    ;
    law_ratio(v, l);
    assert((m + 1) * l == m * l + l) by (nonlinear_arith);
}

/// The margin of a position above what has to be kept at a rate.
pub open spec fn spare_margin(p: Position, rate: int) -> int {
    p.margin() - product(p.value(), rate)
}

/// With margin above maintenance, a long position is liquidated below its entry
/// and a short one above it, at the price at which the loss uses that margin
/// up: the profit there is its negative, but for what one unit of the price
/// makes. Without, it is liquidated where it stands.
pub proof fn law_liquidation_price_uses_margin_up(p: Position, rate: int)
    requires
        p.size.units > 0,
        p.leverage.units > 0,
        -0x8000_0000_0000_0000 < p.liquidation(rate) < 0x7fff_ffff_ffff_ffff,
        spare_margin(p, rate) * 100_000_000 <= 0x7fff_ffff_ffff_ffff * p.size.units,
        spare_margin(p, rate) <= 0x7fff_ffff_ffff_ffff,
    ensures
        spare_margin(p, rate) <= 0 ==> p.liquidation(rate) == p.mark_price.units,
        spare_margin(p, rate) > 0 && p.side == PositionSide::Long ==> p.liquidation(rate)
            <= p.entry_price.units,
        spare_margin(p, rate) > 0 && p.side == PositionSide::Short ==> p.liquidation(rate)
            >= p.entry_price.units,
        spare_margin(p, rate) > 0 ==> {
            let at = profit(
                p.side,
                p.size.units as int,
                p.entry_price.units as int,
                p.liquidation(rate),
            );
            &&& -spare_margin(p, rate) <= at <= 0
            &&& (at + spare_margin(p, rate)) * 100_000_000 < p.size.units + 100_000_000
        },
{
    let spare = spare_margin(p, rate);
    let s = p.size.units as int;
    let e = p.entry_price.units as int;
    if spare > 0 {
        assert(-0x8000_0000_0000_0000 * s <= spare * 100_000_000) by (nonlinear_arith)
            requires
                spare > 0,
                s > 0,
        ;
        law_ratio(spare, s);
        let d = ratio(spare, s);
        let l = p.liquidation(rate);
        let x = d * s;
        assert((l - e) * s == x || (l - e) * s == -x) by (nonlinear_arith)
            requires
                x == d * s,
                l - e == d || l - e == -d,
        ;
        assert((e - l) * s == -((l - e) * s)) by (nonlinear_arith);
        assert(x >= 0) by (nonlinear_arith)
            requires
                x == d * s,
                d >= 0,
                s > 0,
        ;
        if p.side == PositionSide::Long {
            assert(l == e - d);
            assert((l - e) * s == -x) by (nonlinear_arith)
                requires
                    x == d * s,
                    l == e - d,
            ;
        } else {
            assert(l == e + d);
            assert((e - l) * s == -x) by (nonlinear_arith)
                requires
                    x == d * s,
                    l == e + d,
            ;
        }
        law_division_cuts_off(-x, 100_000_000);
    }
}

/// The initial margin of a value is the symbol's own rate of it, one hundredth
/// where it has none, or the value over the leverage where that is more.
pub proof fn law_initial_requirement(
    s: MarginSimulator,
    value: int,
    leverage: int,
    symbol: Seq<char>,
)
    requires
        leverage > 0,
        value >= 0,
    ensures
        ({
            let own = if s.initial_rates@.contains_key(symbol) {
                s.initial_rates@[symbol].units as int
            } else {
                1_000_000
            };
            let r = s.initial_requirement(value, leverage, symbol);
            &&& r >= product(value, own)
            &&& r >= product(value, ratio(100_000_000, leverage))
            &&& r == product(value, own) || r == product(value, ratio(100_000_000, leverage))
        }),
{
    let own = if s.initial_rates@.contains_key(symbol) {
        s.initial_rates@[symbol].units as int
    } else {
        1_000_000
    };
    let lev = ratio(100_000_000, leverage);
    if own <= lev {
        law_product_rises(own, lev, value);
    } else {
        law_product_rises(lev, own, value);
    }
    assert(own * value == value * own) by (nonlinear_arith);
    assert(lev * value == value * lev) by (nonlinear_arith);
}

/// A position with leverage is refused for its leverage exactly where a limit
/// is exceeded; else for its margin where the available balance does not cover
/// the requirement; else for risk where it takes the exposure above ten times
/// the equity; and otherwise allowed.
pub proof fn law_verdict(s: MarginSimulator, account: MarginAccount, p: Position)
    requires
        p.leverage.units > 0,
    ensures
        ({
            let over = s.max_leverage@.contains_key(p.symbol@) && p.leverage.units
                > s.max_leverage@[p.symbol@].units;
            let need = s.initial_requirement(p.value(), p.leverage.units as int, p.symbol@);
            let equity = saturated(account.wallet_balance.units + account.unrealized_pnl.units);
            let exposure = saturated(total_value(account.cross_positions.entries@)) + p.value();
            let v = s.verdict(account, p);
            &&& v is LeverageExceeded <==> over
            &&& v is InsufficientMargin <==> !over && need > account.available_balance.units
            &&& v is RiskLimitExceeded <==> !over && need <= account.available_balance.units
                && exposure > 10 * equity
            &&& v is Valid <==> !over && need <= account.available_balance.units && exposure <= 10
                * equity
        }),
{
}

/// The exposure of an account counts the value of each position once.
pub proof fn law_exposure_adds_up(s: Seq<(String, Position)>, key: String, p: Position)
    ensures
        total_value(Seq::empty()) == 0,
        total_value(s.push((key, p))) == total_value(s) + product(
            p.size.units as int,
            p.mark_price.units as int,
        ),
{
    assert(s.push((key, p)).drop_last() =~= s);
}

/// A shock of so many percent changes a price by as many hundredths of it, cut
/// off at eight places; none leaves it.
pub proof fn law_shock_in_percent(price: int, shock: int)
    requires
        0 <= price <= 0x7fff_ffff_ffff_ffff,
        shock >= -10_000_000_000,
        price * (10_000_000_000 + shock) <= 0x7fff_ffff_ffff_ffff * 10_000_000_000,
    ensures
        shocked(price, shock) * 10_000_000_000 <= price * 10_000_000_000 + price * shock < (shocked(
            price,
            shock,
        ) + 1) * 10_000_000_000,
        shocked(price, 0) == price,
        shock <= 0 ==> shocked(price, shock) <= price,
        shock >= 0 ==> shocked(price, shock) >= price,
{
    let x = price * (10_000_000_000 + shock);
    assert(x == price * 10_000_000_000 + price * shock) by (nonlinear_arith)
        requires
            x == price * (10_000_000_000 + shock),
    ;
    assert(x >= 0) by (nonlinear_arith)
        requires
            x == price * (10_000_000_000 + shock),
            price >= 0,
            shock >= -10_000_000_000,
    ;
    law_division_cuts_off(x, 10_000_000_000);
    law_division_cuts_off(price * 10_000_000_000, 10_000_000_000);
    assert(shock <= 0 ==> price * shock <= 0) by (nonlinear_arith)
        requires
            price >= 0,
    ;
    assert(shock >= 0 ==> price * shock >= 0) by (nonlinear_arith)
        requires
            price >= 0,
    ;
}

/// A shock makes of a position the profit at the shocked price, and takes it
/// below maintenance exactly where the loss is more than the rate's part of its
/// value.
pub proof fn law_shocked_position(p: Position, rate: int, shock: int)
    ensures
        shocked_pnl(p, shock) == profit(
            p.side,
            p.size.units as int,
            p.entry_price.units as int,
            shocked(p.mark_price.units as int, shock),
        ),
        breaks(p, rate, shock) <==> -shocked_pnl(p, shock) > product(p.value(), rate),
{
}

/// The profit of an account after a shock counts each position once.
pub proof fn law_shocked_profits_add_up(
    s: Seq<(String, Position)>,
    key: String,
    p: Position,
    shock: int,
)
    ensures
        total_shocked_pnl(Seq::empty(), shock) == 0,
        total_shocked_pnl(s.push((key, p)), shock) == total_shocked_pnl(s, shock) + shocked_pnl(
            p,
            shock,
        ),
{
    assert(s.push((key, p)).drop_last() =~= s);
}

/// At the price of liquidation the equity of a long position no longer exceeds
/// maintenance margin and fee, while one unit higher it does.
pub proof fn law_long_equity_at_liquidation(p: LiquidationParams)
    requires
        p.position_size.units > 0,
        p.entry_price.units > 0,
        p.maintenance_margin_rate.units + p.taker_fee_rate.units < 100_000_000,
        p.position_size.units * (100_000_000 - p.maintenance_margin_rate.units
            - p.taker_fee_rate.units) > 1_000_000,
        0 < p.liquidation_price(
            crate::margin::liquidation_calculator::PositionSide::Long,
        ) < 0x7fff_ffff_ffff_ffff,
    ensures
        ({
            let l = p.liquidation_price(crate::margin::liquidation_calculator::PositionSide::Long);
            let s = p.position_size.units as int;
            let e = p.entry_price.units as int;
            let m = p.margin_balance.units * 100_000_000;
            let r = p.maintenance_margin_rate.units + p.taker_fee_rate.units;
            &&& (m + (l - e) * s) * 100_000_000 <= (l * s) * r
            &&& (m + (l + 1 - e) * s) * 100_000_000 > ((l + 1) * s) * r
        }),
{
    let s = p.position_size.units as int;
    let e = p.entry_price.units as int;
    let m = p.margin_balance.units * 100_000_000;
    let r = p.maintenance_margin_rate.units + p.taker_fee_rate.units;
    let d = s * (100_000_000 - r);
    assert(d > 1_000_000);
    let a = (s * e - m) * 100_000_000;
    let l = p.liquidation_price(crate::margin::liquidation_calculator::PositionSide::Long);
    law_division_cuts_off(a, d);
    assert(l == truncated_div(a, d));
    assert(l * d <= a < l * d + d) by {
        if a < 0 {
            assert(truncated_div(a, d) <= 0);
        }
    }
    assert((m + (l - e) * s) * 100_000_000 <= (l * s) * r) by (nonlinear_arith)
        requires
            l * d <= a,
            d == s * (100_000_000 - r),
            a == (s * e - m) * 100_000_000,
    ;
    assert((m + (l + 1 - e) * s) * 100_000_000 > ((l + 1) * s) * r) by (nonlinear_arith)
        requires
            a < l * d + d,
            d == s * (100_000_000 - r),
            a == (s * e - m) * 100_000_000,
    ;
}

/// At the price of liquidation the equity of a short position still covers
/// maintenance margin and fee, while one unit higher it does not.
pub proof fn law_short_equity_at_liquidation(p: LiquidationParams)
    requires
        p.position_size.units > 0,
        p.entry_price.units > 0,
        p.maintenance_margin_rate.units + p.taker_fee_rate.units > -100_000_000,
        p.position_size.units * (100_000_000 + p.maintenance_margin_rate.units
            + p.taker_fee_rate.units) > 1_000_000,
        0 < p.liquidation_price(
            crate::margin::liquidation_calculator::PositionSide::Short,
        ) < 0x7fff_ffff_ffff_ffff,
    ensures
        ({
            let l = p.liquidation_price(crate::margin::liquidation_calculator::PositionSide::Short);
            let s = p.position_size.units as int;
            let e = p.entry_price.units as int;
            let m = p.margin_balance.units * 100_000_000;
            let r = p.maintenance_margin_rate.units + p.taker_fee_rate.units;
            &&& (m + (e - l) * s) * 100_000_000 >= (l * s) * r
            &&& (m + (e - l - 1) * s) * 100_000_000 < ((l + 1) * s) * r
        }),
{
    let s = p.position_size.units as int;
    let e = p.entry_price.units as int;
    let m = p.margin_balance.units * 100_000_000;
    let r = p.maintenance_margin_rate.units + p.taker_fee_rate.units;
    let d = s * (100_000_000 + r);
    assert(s * (100_000_000 + p.maintenance_margin_rate.units + p.taker_fee_rate.units) == d);
    assert(d > 1_000_000);
    let a = (s * e + m) * 100_000_000;
    let l = p.liquidation_price(crate::margin::liquidation_calculator::PositionSide::Short);
    law_division_cuts_off(a, d);
    assert(l == truncated_div(a, d));
    assert(l * d <= a < l * d + d) by {
        if a < 0 {
            assert(truncated_div(a, d) <= 0);
        }
    }
    assert((m + (e - l) * s) * 100_000_000 >= (l * s) * r) by (nonlinear_arith)
        requires
            l * d <= a,
            d == s * (100_000_000 + r),
            a == (s * e + m) * 100_000_000,
    ;
    assert((m + (e - l - 1) * s) * 100_000_000 < ((l + 1) * s) * r) by (nonlinear_arith)
        requires
            a < l * d + d,
            d == s * (100_000_000 + r),
            a == (s * e + m) * 100_000_000,
    ;
}

/// At the price of bankruptcy the margin is used up, but for less than one unit
/// of the price on the whole size: a long position loses it as the price falls,
/// a short one as it rises.
pub proof fn law_margin_gone_at_bankruptcy(p: LiquidationParams)
    requires
        p.position_size.units > 0,
        p.margin_balance.units >= 0,
    ensures
        ({
            let s = p.position_size.units as int;
            let e = p.entry_price.units as int;
            let m = p.margin_balance.units * 100_000_000;
            let long = p.bankruptcy_price(
                crate::margin::liquidation_calculator::PositionSide::Long,
            );
            let short = p.bankruptcy_price(
                crate::margin::liquidation_calculator::PositionSide::Short,
            );
            &&& -0x8000_0000_0000_0000 < long ==> 0 <= m + (long - e) * s < s && long <= e
            &&& short < 0x7fff_ffff_ffff_ffff ==> 0 <= m + (e - short) * s < s && short >= e
        }),
{
    let s = p.position_size.units as int;
    let e = p.entry_price.units as int;
    let m = p.margin_balance.units * 100_000_000;
    law_division_cuts_off(m, s);
    let q = truncated_div(m, s);
    let long = p.bankruptcy_price(crate::margin::liquidation_calculator::PositionSide::Long);
    let short = p.bankruptcy_price(crate::margin::liquidation_calculator::PositionSide::Short);
    if -0x8000_0000_0000_0000 < long {
        assert((long - e) * s == -(q * s)) by (nonlinear_arith)
            requires
                long == e - q,
        ;
    }
    if short < 0x7fff_ffff_ffff_ffff {
        assert((e - short) * s == -(q * s)) by (nonlinear_arith)
            requires
                short == e + q,
        ;
    }
}

/// The expected loss is how far the price of liquidation lies from entry, as
/// part of the entry price; all of it where there is no positive price.
pub proof fn law_expected_loss(p: LiquidationParams, price: int)
    requires
        p.entry_price.units > 0,
    ensures
        price <= 0 ==> p.expected_loss(
            crate::margin::liquidation_calculator::PositionSide::Long,
            price,
        ) == 100_000_000,
        0 < price <= p.entry_price.units ==> {
            let x = p.expected_loss(
                crate::margin::liquidation_calculator::PositionSide::Long,
                price,
            );
            0 <= x && x * p.entry_price.units <= (p.entry_price.units - price) * 100_000_000 < x
                * p.entry_price.units + p.entry_price.units
        },
        p.entry_price.units <= price <= 2 * p.entry_price.units ==> {
            let x = p.expected_loss(
                crate::margin::liquidation_calculator::PositionSide::Short,
                price,
            );
            0 <= x && x * p.entry_price.units <= (price - p.entry_price.units) * 100_000_000 < x
                * p.entry_price.units + p.entry_price.units
        },
{
    let e = p.entry_price.units as int;
    if 0 < price <= e {
        law_ratio(e - price, e);
    }
    if e <= price <= 2 * e {
        law_ratio(price - e, e);
    }
}

/// The leverage in effect is the value at entry over the margin.
pub proof fn law_effective_leverage(p: LiquidationParams)
    requires
        p.position_size.units > 0,
        p.entry_price.units > 0,
        p.margin_balance.units >= 0,
        p.margin_balance.units > 0 ==> p.effective_leverage() < 0x7fff_ffff_ffff_ffff,
    ensures
        p.margin_balance.units == 0 ==> p.effective_leverage() == 0x7fff_ffff_ffff_ffff,
        p.margin_balance.units > 0 ==>
        p.effective_leverage() * p.margin_balance.units <= p.position_size.units
            * p.entry_price.units < p.effective_leverage() * p.margin_balance.units
            + p.margin_balance.units,
{
    let x = p.position_size.units * p.entry_price.units;
    let m = p.margin_balance.units as int;
    assert(x > 0) by (nonlinear_arith)
        requires
            x == p.position_size.units * p.entry_price.units,
            p.position_size.units > 0,
            p.entry_price.units > 0,
    ;
    if m > 0 {
        law_division_cuts_off(x, m);
    }
}

/// The tier of a leverage is the highest whose threshold it reaches: it reaches
/// that one unless it is in the first, and none behind it.
pub proof fn law_highest_tier(thresholds: Seq<Amount>, leverage: int)
    ensures
        ({
            let t = highest_tier(thresholds, leverage);
            &&& t >= 1
            &&& t <= thresholds.len() || t == 1
            &&& t > 1 ==> leverage >= thresholds[t - 1].units
            &&& forall|i: int| t <= i < thresholds.len() ==> leverage < (#[trigger] thresholds[i]).units
        }),
    decreases thresholds.len(),
{
    if thresholds.len() > 0 && leverage < thresholds.last().units {
        let d = thresholds.drop_last();
        law_highest_tier(d, leverage);
        let t = highest_tier(thresholds, leverage);
        assert forall|i: int| t <= i < thresholds.len() implies leverage < (
        #[trigger] thresholds[i]).units by {
            if i < d.len() {
                assert(d[i] == thresholds[i]);
            }
        }
        if t > 1 {
            assert(d[t - 1] == thresholds[t - 1]);
        }
    }
}

/// A liquidation that loses more than the margin draws the rest from the fund;
/// one that loses less leaves the fund alone; one with a profit pays it in, up
/// to the margin.
pub proof fn law_insurance_impact(net: int, margin: int)
    requires
        margin >= 0,
    ensures
        net < -margin ==> insurance_impact(net, margin) < 0 && margin - insurance_impact(
            net,
            margin,
        ) == -net,
        -margin <= net <= 0 ==> insurance_impact(net, margin) == 0,
        0 < net <= margin ==> insurance_impact(net, margin) == net,
        net > margin ==> insurance_impact(net, margin) == margin,
{
}

/// Without a profit a position is deleveraged by its leverage alone, one
/// hundredth of it; with one it never comes later.
pub proof fn law_deleveraging_order(value: int, leverage: int, pnl: int)
    requires
        0 <= leverage <= 0x7fff_ffff_ffff_ffff,
        value > 0,
    ensures
        pnl <= 0 ==> LiquidationCalculator::adl_score(value, leverage, pnl) * 100 <= leverage < (
        LiquidationCalculator::adl_score(value, leverage, pnl) + 1) * 100,
        LiquidationCalculator::adl_score(value, leverage, pnl) >= LiquidationCalculator::adl_score(
            value,
            leverage,
            0,
        ),
        pnl == value && value <= 0x7fff_ffff && leverage <= 0x3fff_ffff_ffff_ffff
            ==> LiquidationCalculator::adl_score(value, leverage, pnl) == 2
            * LiquidationCalculator::adl_score(value, leverage, 0),
{
    law_division_cuts_off(leverage, 100);
    let l = truncated_div(leverage, 100);
    law_division_cuts_off(l * 100_000_000, 100_000_000);
    law_ratio_at_end(pnl, value);
    let gain = if pnl > 0 {
        ratio(pnl, value)
    } else {
        0
    };
    assert(gain >= 0);
    assert(l * (100_000_000 + gain) >= l * 100_000_000) by (nonlinear_arith)
        requires
            l >= 0,
            gain >= 0,
    ;
    lemma_division_rises(l * 100_000_000, l * (100_000_000 + gain), 100_000_000);
    if pnl == value && value <= 0x7fff_ffff && leverage <= 0x3fff_ffff_ffff_ffff {
        law_ratio(pnl, value);
        assert(ratio(pnl, value) == 100_000_000) by (nonlinear_arith)
            requires
                value > 0,
                ratio(pnl, value) * value <= value * 100_000_000 < ratio(pnl, value) * value
                    + value,
        ;
        assert(l * 200_000_000 == (2 * l) * 100_000_000);
        law_division_cuts_off((2 * l) * 100_000_000, 100_000_000);
    }
}

/// With margin above maintenance no long position is liquidated above its entry
/// and no short one below it, however far away the price is; without leverage
/// there is no price at which a position of some value is liquidated.
pub proof fn law_liquidated_on_losing_side(p: Position, rate: int)
    requires
        p.size.units > 0,
    ensures
        p.leverage.units > 0 && spare_margin(p, rate) > 0 && p.side == PositionSide::Long
            ==> p.liquidation(rate) <= p.entry_price.units,
        p.leverage.units > 0 && spare_margin(p, rate) > 0 && p.side == PositionSide::Short
            ==> p.liquidation(rate) >= p.entry_price.units,
        p.leverage.units == 0 && p.mark_price.units > 0 && p.side == PositionSide::Long
            ==> p.liquidation(rate) == -0x8000_0000_0000_0000,
        p.leverage.units == 0 && p.mark_price.units > 0 && p.side == PositionSide::Short
            ==> p.liquidation(rate) == 0x7fff_ffff_ffff_ffff,
{
    law_ratio_at_end(spare_margin(p, rate), p.size.units as int);
    law_product_at_end(p.size.units as int, p.mark_price.units as int);
}

/// A position costs more than an amount where its margin is more, and without
/// leverage more than any amount where it is worth something.
pub proof fn law_cost_of_position(p: Position, amount: int)
    ensures
        p.leverage.units != 0 ==> (p.costs_more_than(amount) <==> p.margin() > amount),
        p.leverage.units == 0 && p.size.units > 0 && p.mark_price.units >= 100_000_000
            ==> p.costs_more_than(amount),
{
    if p.size.units > 0 && p.mark_price.units >= 100_000_000 {
        law_product_rises(100_000_000, p.mark_price.units as int, p.size.units as int);
        law_product_at_end(p.size.units as int, p.mark_price.units as int);
        let s = p.size.units as int;
        let m = p.mark_price.units as int;
        assert(100_000_000 * s == s * 100_000_000);
        assert(s * m == m * s) by (nonlinear_arith);
        law_division_cuts_off(100_000_000 * s, 100_000_000);
    }
}

/// The tier of a leverage is told by the thresholds of its symbol, and is the
/// first where the symbol has none.
pub proof fn law_tier_of_symbol(c: LiquidationCalculator, leverage: int, symbol: Seq<char>)
    ensures
        c.adl_configs@.contains_key(symbol) ==> c.tier(leverage, symbol) == highest_tier(
            c.adl_configs@[symbol].leverage_thresholds@,
            leverage,
        ),
        !c.adl_configs@.contains_key(symbol) ==> c.tier(leverage, symbol) == 1,
{
}

/// The usual liquidation: half a hundredth to keep, four hundredths of a percent
/// as a fee, and a fund of a hundred million of which a tenth is never touched.
pub proof fn law_usual_liquidation(c: LiquidationCalculator, symbol: Seq<char>)
    requires
        c.usual(),
        symbol == "BTC-PERP"@ || symbol == "ETH-PERP"@,
    ensures
        c.maintenance_rates@.contains_key(symbol),
        c.taker_fees@.contains_key(symbol),
        c.adl_configs@.contains_key(symbol),
        c.insurance_funds@.contains_key("USD"@),
        200 * c.maintenance_rates@[symbol].units == 100_000_000,
        2_500 * c.taker_fees@[symbol].units == 100_000_000,
        c.insurance_funds@["USD"@].balance.units == 100_000_000 * 100_000_000,
        10 * c.insurance_funds@["USD"@].min_balance.units
            == c.insurance_funds@["USD"@].balance.units,
        c.adl_configs@[symbol].tiers == 5,
        c.adl_configs@[symbol].leverage_thresholds@.len() == 5,
        c.adl_configs@[symbol].leverage_thresholds@[0].units == 10 * 100_000_000,
        c.adl_configs@[symbol].leverage_thresholds@[1].units == 25 * 100_000_000,
        c.adl_configs@[symbol].leverage_thresholds@[2].units == 50 * 100_000_000,
        c.adl_configs@[symbol].leverage_thresholds@[3].units == 75 * 100_000_000,
        c.adl_configs@[symbol].leverage_thresholds@[4].units == 100 * 100_000_000,
{
    assert(c.maintenance_rates@.dom().contains(symbol));
    assert(c.taker_fees@.dom().contains(symbol));
    assert(c.adl_configs@.dom().contains(symbol));
    assert(c.insurance_funds@.dom().contains("USD"@));
    assert(c.adl_configs@[symbol].usual());
}

} // verus!
