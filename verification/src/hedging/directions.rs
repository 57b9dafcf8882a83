//! Which way a hedge goes.

use vstd::prelude::*;
use crate::base::amount::Amount;
use crate::base::rounding::law_division_cuts_off;
use crate::hedging::hedge_executor::{
    contracts, gross_after, hedge_order, hedge_orders, in_lots, net_after, DeltaTracker, HedgeOrder,
    HedgeSignal, OrderType, Side,
};

verus! {

/// A hedge buys where the target is above the current delta and sells where it
/// is below, as a limit order for the signal's symbol at the given price.
pub proof fn law_hedge_goes_to_target(lot: Amount, signal: HedgeSignal, price: i64)
    requires
        hedge_order(lot, signal, price) is Some,
    ensures
        ({
            let o = hedge_order(lot, signal, price)->0;
            &&& o.side == Side::Buy <==> signal.target_delta.units > signal.current_delta.units
            &&& o.side == Side::Sell <==> signal.target_delta.units < signal.current_delta.units
            &&& o.symbol_id == signal.symbol_id
            &&& o.price_ticks == price
            &&& o.order_type == OrderType::Limit
            &&& o.timestamp_ns == signal.timestamp_ns
        }),
{
    let d = signal.target_delta.units - signal.current_delta.units;
    law_division_cuts_off(d, 10_000);
    assert(in_lots(0, lot.units as int) == 0) by {
        let l = lot.units as int;
        if l >= 100_000_000 {
            assert(0int / l == 0) by (nonlinear_arith)
                requires
                    l > 0,
            ;
            assert(0 * (l / 100_000_000) == 0) by (nonlinear_arith);
        } else if l <= -100_000_000 {
            assert((-l - 1) / -l == 0) by (nonlinear_arith)
                requires
                    l < 0,
            ;
            assert(0 * (-l / 100_000_000) == 0) by (nonlinear_arith);
        }
    }
}

/// A buy adds its quantity to the delta and a sell takes it away.
pub proof fn law_order_changes_delta(o: HedgeOrder)
    ensures
        o.side == Side::Buy ==> o.change() == o.quantity,
        o.side == Side::Sell ==> o.change() == -o.quantity,
{
}

/// Differences of less than a thousandth need no contracts; others need one for
/// each ten thousandth of a thousandth.
pub proof fn law_contracts(diff: int)
    ensures
        -100_000 < diff < 100_000 ==> contracts(diff) == 0,
        diff >= 100_000 ==> contracts(diff) * 10_000 <= diff < contracts(diff) * 10_000 + 10_000,
        contracts(-diff) == -contracts(diff),
{
    law_division_cuts_off(diff, 10_000);
}

/// A quantity in whole lots of so many units is the largest such that does not
/// exceed it.
pub proof fn law_whole_lots(quantity: int, lots: int)
    requires
        quantity >= 0,
        lots >= 1,
    ensures
        in_lots(quantity, lots * 100_000_000) <= quantity < in_lots(quantity, lots * 100_000_000)
            + lots,
        exists|n: int| in_lots(quantity, lots * 100_000_000) == #[trigger] (n * lots),
{
    let l = lots * 100_000_000;
    let q = quantity * 100_000_000 / l;
    assert(q * lots <= quantity < q * lots + lots) by (nonlinear_arith)
        requires
            l == lots * 100_000_000,
            q == quantity * 100_000_000 / l,
            lots >= 1,
    ;
    assert(in_lots(quantity, l) == q * lots);
}

/// The net delta moves by the change, the gross delta by its size.
pub proof fn law_tracker_moves(t: DeltaTracker, change: int, now: u64)
    requires
        -0x3fff_ffff_ffff_ffff <= change <= 0x3fff_ffff_ffff_ffff,
        -0x3fff_ffff_ffff_ffff <= t.net_delta <= 0x3fff_ffff_ffff_ffff,
        0 <= t.gross_delta <= 0x3fff_ffff_ffff_ffff,
    ensures
        t.updated(change, now).net_delta == t.net_delta + change,
        change >= 0 ==> t.updated(change, now).gross_delta == t.gross_delta + change,
        change <= 0 ==> t.updated(change, now).gross_delta == t.gross_delta - change,
        t.updated(change, now).last_update_ns == now,
{
}

/// Each signal with a price gives its order, in turn; others give none.
pub proof fn law_orders_follow_signals(
    lot: Amount,
    signals: Seq<HedgeSignal>,
    s: HedgeSignal,
    prices: Seq<i64>,
)
    ensures
        hedge_orders(lot, Seq::empty(), prices) == Seq::<HedgeOrder>::empty(),
        s.symbol_id < prices.len() && hedge_order(lot, s, prices[s.symbol_id as int]) is Some
            ==> hedge_orders(lot, signals.push(s), prices) == hedge_orders(
            lot,
            signals,
            prices,
        ).push(hedge_order(lot, s, prices[s.symbol_id as int])->0),
        s.symbol_id >= prices.len() || hedge_order(lot, s, prices[s.symbol_id as int]) is None
            ==> hedge_orders(lot, signals.push(s), prices) == hedge_orders(lot, signals, prices),
{
    assert(signals.push(s).drop_last() =~= signals);
}

/// A buy of some quantity and a sell of as much leave the net delta, and add
/// both to the gross delta.
pub proof fn law_opposite_orders_cancel_out(net: i64, gross: i64, buy: HedgeOrder, sell: HedgeOrder)
    requires
        buy.side == Side::Buy,
        sell.side == Side::Sell,
        0 <= buy.quantity <= 0x1fff_ffff_ffff_ffff,
        sell.quantity == buy.quantity,
        -0x1fff_ffff_ffff_ffff <= net <= 0x1fff_ffff_ffff_ffff,
        0 <= gross <= 0x1fff_ffff_ffff_ffff,
    ensures
        net_after(net, seq![buy]) == net + buy.quantity,
        net_after(net, seq![buy, sell]) == net,
        gross_after(gross, seq![buy, sell]) == gross + 2 * buy.quantity,
{
    assert(seq![buy, sell].drop_last() =~= seq![buy]);
    assert(seq![buy].drop_last() =~= Seq::<HedgeOrder>::empty());
    reveal_with_fuel(net_after, 3);
    reveal_with_fuel(gross_after, 3);
}

/// A tracker is within a limit up to and at the limit.
pub proof fn law_within_limit(t: DeltaTracker, limit: i64)
    ensures
        t.gross_delta <= limit ==> t.within(limit),
        t.gross_delta > limit ==> !t.within(limit),
{
}

} // verus!
