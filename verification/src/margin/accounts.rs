//! What an account has left, and what happens to it as prices move.

use vstd::prelude::*;
use crate::base::amount::Amount;
use crate::base::numbers::{product, ratio};
use crate::base::rounding::{law_product, law_product_at_end, law_ratio};
use crate::margin::liquidation_calculator::{
    closes, InsuranceFund, LiquidationParams, LiquidationPnL, LiquidationResult,
};
use crate::margin::margin_simulator::{
    broken, marked, marked_pnl, profit, rate_or, shocked_pnl, total_shocked_pnl, MarginAccount,
    MarginSimulator, Position, StressTestResult,
};

verus! {

/// A long position is liquidated at its price of liquidation and at every price
/// below, a short one there and at every price above.
pub proof fn law_liquidated_beyond_price(r: LiquidationResult, price: Amount)
    ensures
        r.reached(price, crate::margin::liquidation_calculator::PositionSide::Long) <==> price.units
            <= r.liquidation_price.units,
        r.reached(price, crate::margin::liquidation_calculator::PositionSide::Short)
            <==> price.units >= r.liquidation_price.units,
{
}

/// A long position that is closed above its entry gains and one closed below it
/// loses; a short one the other way round. The fee comes off, what the margin
/// does not cover is not the trader's, and the fund bears it.
pub proof fn law_closed_position(
    p: LiquidationParams,
    price: Amount,
    l: LiquidationPnL,
    s: LiquidationPnL,
)
    requires
        p.position_size.units > 0,
        p.margin_balance.units >= 0,
        p.taker_fee_rate.units >= 0,
        0 <= price.units,
        0 <= p.entry_price.units,
        p.position_size.units * price.units <= 0x1fff_ffff_ffff_ffff * 100_000_000,
        p.position_size.units * p.entry_price.units <= 0x1fff_ffff_ffff_ffff * 100_000_000,
        closes(p, crate::margin::liquidation_calculator::PositionSide::Long, price, l),
        closes(p, crate::margin::liquidation_calculator::PositionSide::Short, price, s),
    ensures
        price.units >= p.entry_price.units ==> l.gross_pnl.units >= 0 && s.gross_pnl.units <= 0,
        price.units <= p.entry_price.units ==> l.gross_pnl.units <= 0 && s.gross_pnl.units >= 0,
        l.gross_pnl.units == -s.gross_pnl.units,
        l.taker_fee == s.taker_fee,
        l.taker_fee.units >= 0,
        l.net_pnl.units <= l.gross_pnl.units,
        s.net_pnl.units <= s.gross_pnl.units,
        0 <= l.trader_loss.units <= p.margin_balance.units,
        0 <= s.trader_loss.units <= p.margin_balance.units,
        l.net_pnl.units >= 0 ==> l.trader_loss.units == 0,
        l.net_pnl.units < 0 && -l.net_pnl.units <= p.margin_balance.units ==> l.trader_loss.units
            == -l.net_pnl.units && l.insurance_impact.units == 0,
        -l.net_pnl.units > p.margin_balance.units && l.net_pnl.units > -0x7fff_ffff_ffff_ffff
            ==> l.trader_loss.units - l.insurance_impact.units == -l.net_pnl.units,
{
    let n = p.position_size.units as int;
    let a = p.entry_price.units as int;
    let b = price.units as int;
    assert(n * a >= 0 && n * b >= 0 && (a <= b ==> n * a <= n * b) && (b <= a ==> n * b <= n * a))
        by (nonlinear_arith)
        requires
            n > 0,
            a >= 0,
            b >= 0,
    ;
    law_product(n, a);
    law_product(n, b);
    assert(n * a == a * n && n * b == b * n) by (nonlinear_arith);
    if a <= b {
        crate::base::rounding::law_product_rises(a, b, n);
    } else {
        crate::base::rounding::law_product_rises(b, a, n);
    }
    law_product_at_end(product(n, b), p.taker_fee_rate.units as int);
}

/// The fund pays a deficit as far as it stands above its least balance.
pub proof fn law_fund_pays(f: InsuranceFund, deficit: int)
    requires
        f.balance.units >= 0,
        f.min_balance.units >= 0,
        deficit >= 0,
    ensures
        f.balance.units <= f.min_balance.units ==> f.covered(deficit) == 0,
        f.balance.units >= f.min_balance.units && deficit <= f.balance.units - f.min_balance.units
            ==> f.covered(deficit) == deficit,
        f.balance.units >= f.min_balance.units && deficit >= f.balance.units - f.min_balance.units
            ==> f.covered(deficit) == f.balance.units - f.min_balance.units,
{
}

/// A position that is taken on is kept under its symbol, and its margin moves
/// from what is available to what is used.
pub proof fn law_position_uses_margin(before: MarginAccount, after: MarginAccount, p: Position)
    requires
        after.takes_on(before, p),
        p.leverage.units != 0,
        -0x8000_0000_0000_0000 <= before.total_margin_used.units + p.margin()
            <= 0x7fff_ffff_ffff_ffff,
        -0x8000_0000_0000_0000 <= before.available_balance.units - p.margin()
            <= 0x7fff_ffff_ffff_ffff,
    ensures
        after.cross_positions@.contains_key(p.symbol@),
        after.cross_positions@[p.symbol@] == p,
        after.total_margin_used.units - before.total_margin_used.units == p.margin(),
        before.available_balance.units - after.available_balance.units == p.margin(),
        after.total_margin_used.units + after.available_balance.units
            == before.total_margin_used.units + before.available_balance.units,
{
}

/// Margin that is set aside for a symbol moves from what is available to what is
/// used, and moves back as it is given back.
pub proof fn law_isolated_margin_moves(
    a: MarginAccount,
    b: MarginAccount,
    symbol: Seq<char>,
    amount: Amount,
)
    requires
        amount.units >= 0,
        0 <= a.available_balance.units <= 0x3fff_ffff_ffff_ffff,
        0 <= a.total_margin_used.units <= 0x3fff_ffff_ffff_ffff,
        amount.units <= 0x3fff_ffff_ffff_ffff,
    ensures
        b.sets_aside(a, symbol, amount) ==> {
            &&& b.isolated_allocations@.contains_key(symbol)
            &&& b.isolated_allocations@[symbol] == amount
            &&& b.available_balance.units == a.available_balance.units - amount.units
            &&& b.total_margin_used.units == a.total_margin_used.units + amount.units
            &&& b.wallet_balance == a.wallet_balance
        },
        b.gives_back(a, symbol, amount) ==> {
            &&& !b.isolated_allocations@.contains_key(symbol)
            &&& b.available_balance.units == a.available_balance.units + amount.units
            &&& b.total_margin_used.units == a.total_margin_used.units - amount.units
            &&& b.wallet_balance == a.wallet_balance
        },
{
}

/// Equity is the wallet with the profit not yet taken; the margin in use is told
/// as part of it, and an account is at risk where it covers less than the rate's
/// part of that margin.
pub proof fn law_equity_covers_margin(a: MarginAccount, rate: int)
    requires
        -0x8000_0000_0000_0000 <= a.wallet_balance.units + a.unrealized_pnl.units
            <= 0x7fff_ffff_ffff_ffff,
        a.total_margin_used.units >= 0,
        a.equity_units() > 0 ==> a.total_margin_used.units * 100_000_000 <= 0x7fff_ffff_ffff_ffff
            * a.equity_units(),
    ensures
        a.equity_units() == a.wallet_balance.units + a.unrealized_pnl.units,
        a.equity_units() > 0 ==> a.used_part() * a.equity_units() <= a.total_margin_used.units
            * 100_000_000 < a.used_part() * a.equity_units() + a.equity_units(),
        a.equity_units() <= 0 ==> a.used_part() == 0x7fff_ffff_ffff_ffff,
        a.at_risk(rate) <==> a.equity_units() < product(a.total_margin_used.units as int, rate),
        a.equity_units() < 0 && rate >= 0 ==> a.at_risk(rate),
        a.equity_units() >= a.total_margin_used.units ==> !a.at_risk(100_000_000),
{
    let e = a.equity_units();
    let m = a.total_margin_used.units as int;
    if e > 0 {
        assert(-0x8000_0000_0000_0000 * e <= 0) by (nonlinear_arith)
            requires
                e > 0,
        ;
        law_ratio(m, e);
    }
    law_product_at_end(m, rate);
    law_product(m, 100_000_000);
}

/// A mark price moves the positions of its symbol and no others; the profit
/// counts each moved position once, at its new mark.
pub proof fn law_marks_move_positions(
    s: Seq<(String, Position)>,
    prices: Map<Seq<char>, Amount>,
    i: int,
    x: (String, Position),
)
    requires
        0 <= i < s.len(),
    ensures
        marked(s, prices).len() == s.len(),
        marked(s, prices)[i].0 == s[i].0,
        ({
            let p = s[i].1;
            let q = marked(s, prices)[i].1;
            &&& prices.contains_key(p.symbol@) ==> q.mark_price == prices[p.symbol@]
            &&& !prices.contains_key(p.symbol@) ==> q.mark_price == p.mark_price
            &&& q.entry_price == p.entry_price
            &&& q.size == p.size
            &&& q.side == p.side
            &&& q.symbol == p.symbol
            &&& q.leverage == p.leverage
        }),
        marked_pnl(Seq::empty(), prices) == 0,
        prices.contains_key(x.1.symbol@) ==> marked_pnl(s.push(x), prices) == marked_pnl(s, prices)
            + profit(
            x.1.side,
            x.1.size.units as int,
            x.1.entry_price.units as int,
            prices[x.1.symbol@].units as int,
        ),
        !prices.contains_key(x.1.symbol@) ==> marked_pnl(s.push(x), prices) == marked_pnl(s, prices),
        x.1.pnl() == profit(
            x.1.side,
            x.1.size.units as int,
            x.1.entry_price.units as int,
            x.1.mark_price.units as int,
        ),
{
    assert(s.push(x).drop_last() =~= s);
}

/// After a shock the equity is the wallet with the profits at the shocked
/// prices, and the positions that a shock breaks are those whose loss is more
/// than the maintenance of their symbol, half a hundredth where it has none.
pub proof fn law_stress(
    m: MarginSimulator,
    a: MarginAccount,
    shock: Amount,
    r: StressTestResult,
    s: Seq<(String, Position)>,
    x: (String, Position),
)
    requires
        m.stressed(a, shock, r),
        -0x8000_0000_0000_0000 <= total_shocked_pnl(
            a.cross_positions.entries@,
            shock.units as int,
        ) <= 0x7fff_ffff_ffff_ffff,
        -0x8000_0000_0000_0000 <= a.wallet_balance.units + total_shocked_pnl(
            a.cross_positions.entries@,
            shock.units as int,
        ) <= 0x7fff_ffff_ffff_ffff,
    ensures
        r.original_equity.units == a.equity_units(),
        r.stressed_equity.units == a.wallet_balance.units + total_shocked_pnl(
            a.cross_positions.entries@,
            shock.units as int,
        ),
        r.price_shock_pct == shock,
        -shocked_pnl(x.1, shock.units as int) > product(
            x.1.value(),
            rate_or(m.maintenance_rates@, x.0@, 500_000),
        ) ==> broken(s.push(x), m.maintenance_rates@, shock.units as int) == broken(
            s,
            m.maintenance_rates@,
            shock.units as int,
        ).push(x.0@),
        -shocked_pnl(x.1, shock.units as int) <= product(
            x.1.value(),
            rate_or(m.maintenance_rates@, x.0@, 500_000),
        ) ==> broken(s.push(x), m.maintenance_rates@, shock.units as int) == broken(
            s,
            m.maintenance_rates@,
            shock.units as int,
        ),
{
    assert(s.push(x).drop_last() =~= s);
}

/// The largest size that is safe, at the price and the initial rate, needs no
/// more than what is available, and one unit of value more would.
pub proof fn law_safe_size(
    m: MarginSimulator,
    a: MarginAccount,
    symbol: Seq<char>,
    leverage: int,
    price: int,
)
    requires
        m.wf(),
        leverage > 0,
        price > 0,
        a.available_balance.units >= 0,
        a.available_balance.units * 100_000_000 <= 0x7fff_ffff_ffff_ffff * m.initial_rate(
            leverage,
            symbol,
        ),
        m.covered_value(a, leverage, symbol) * 100_000_000 <= 0x7fff_ffff_ffff_ffff * price,
    ensures
        ({
            let value = m.covered_value(a, leverage, symbol);
            let rate = m.initial_rate(leverage, symbol);
            let size = m.safe_size(a, symbol, leverage, price);
            &&& rate > 0
            &&& value * rate <= a.available_balance.units * 100_000_000 < (value + 1) * rate
            &&& size * price <= value * 100_000_000 < (size + 1) * price
        }),
{
    let rate = m.initial_rate(leverage, symbol);
    assert(rate_or(m.initial_rates@, symbol, 1_000_000) > 0);
    assert(rate > 0);
    assert(-0x8000_0000_0000_0000 * rate <= 0 && -0x8000_0000_0000_0000 * price <= 0)
        by (nonlinear_arith)
        requires
            rate > 0,
            price > 0,
    ;
    law_ratio(a.available_balance.units as int, rate);
    let value = m.covered_value(a, leverage, symbol);
    law_ratio(value, price);
    let size = ratio(value, price);
    assert((value + 1) * rate == value * rate + rate) by (nonlinear_arith);
    assert((size + 1) * price == size * price + price) by (nonlinear_arith);
}

/// The change of equity under a shock is the change of the profit in percent of
/// the equity.
pub proof fn law_stress_in_percent(
    m: MarginSimulator,
    a: MarginAccount,
    shock: Amount,
    r: StressTestResult,
)
    requires
        m.stressed(a, shock, r),
        a.equity_units() > 0,
        -0x8000_0000_0000_0000 <= total_shocked_pnl(
            a.cross_positions.entries@,
            shock.units as int,
        ) <= 0x7fff_ffff_ffff_ffff,
        ({
            let more = total_shocked_pnl(a.cross_positions.entries@, shock.units as int)
                - a.unrealized_pnl.units;
            -0x8000_0000_0000_0000 * a.equity_units() <= more * 10_000_000_000
                <= 0x7fff_ffff_ffff_ffff * a.equity_units()
        }),
    ensures
        ({
            let more = total_shocked_pnl(a.cross_positions.entries@, shock.units as int)
                - a.unrealized_pnl.units;
            let part = r.equity_change_pct.units * a.equity_units();
            &&& more >= 0 ==> part <= more * 10_000_000_000 < part + a.equity_units()
            &&& more <= 0 ==> part - a.equity_units() < more * 10_000_000_000 <= part
        }),
{
    let more = total_shocked_pnl(a.cross_positions.entries@, shock.units as int)
        - a.unrealized_pnl.units;
    law_ratio(100 * more, a.equity_units());
}

/// The usual rates of the two main perpetuals: half a hundredth to keep, a
/// hundredth to start with, and a leverage of a hundred at most.
pub proof fn law_usual_rates(m: MarginSimulator, symbol: Seq<char>)
    requires
        m.is_usual(),
        symbol == "BTC-PERP"@ || symbol == "ETH-PERP"@,
    ensures
        m.maintenance_rates@.contains_key(symbol),
        m.initial_rates@.contains_key(symbol),
        m.max_leverage@.contains_key(symbol),
        m.maintenance_rates@[symbol].units == 500_000,
        m.initial_rates@[symbol].units == 1_000_000,
        m.max_leverage@[symbol].units == 100 * 100_000_000,
{
}

} // verus!
