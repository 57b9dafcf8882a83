//! What the records of orders and of requests hold after each step.

use vstd::prelude::*;
use crate::base::amount::Amount;
use crate::exchange::binance_order_manager::{
    discrepancy_of, filled_before, ids_for, is_final, is_open, open_count, open_orders,
    stale_keys, with_id, BinanceOrderManager, BinanceOrderSide, BinanceOrderStatus,
    BinanceOrderUpdate, DiscrepancyType, LocalOrderState, OrderModel,
};
use crate::exchange::rate_limiter::{
    inflow, wait_for, BinanceRateLimiter, BinanceRateLimits, RateLimitResult, TokenBucket,
};

verus! {

/// Every status of an order is either open, final or the wait for a
/// cancellation, and none is two of these.
pub proof fn law_statuses(s: BinanceOrderStatus)
    ensures
        is_open(s) <==> s == BinanceOrderStatus::New || s == BinanceOrderStatus::PartiallyFilled,
        is_final(s) <==> s == BinanceOrderStatus::Filled || s == BinanceOrderStatus::Canceled || s
            == BinanceOrderStatus::Expired || s == BinanceOrderStatus::Rejected,
        !is_open(s) && !is_final(s) <==> s == BinanceOrderStatus::PendingCancel,
{
}

/// Quantities that differ by more than the tolerance are a mismatch whatever the
/// statuses; with equal quantities, an order filled here but not there, and one
/// new here but cancelled there, are a mismatch of the status, and others none.
pub proof fn law_discrepancies(local: OrderModel, exchange: BinanceOrderUpdate)
    ensures
        ({
            let d = local.filled_quantity.units - exchange.executed_qty.units;
            let far = d > 10_000 || -d > 10_000;
            let ahead = local.status == BinanceOrderStatus::Filled && exchange.status
                != BinanceOrderStatus::Filled;
            let lost = local.status == BinanceOrderStatus::New && exchange.status
                == BinanceOrderStatus::Canceled;
            &&& discrepancy_of(local, exchange) == Some(DiscrepancyType::QuantityMismatch) <==> far
            &&& discrepancy_of(local, exchange) == Some(DiscrepancyType::StatusMismatch) <==> !far
                && (ahead || lost)
            &&& discrepancy_of(local, exchange) is None <==> !far && !ahead && !lost
        }),
{
}

/// A registered order is kept under its name with its symbol, side and quantity,
/// new and with nothing filled, waits to be confirmed, is listed under its
/// symbol, and is counted.
pub proof fn law_registered_order_is_kept(
    before: BinanceOrderManager,
    after: BinanceOrderManager,
    id: Seq<char>,
    symbol: Seq<char>,
    side: BinanceOrderSide,
    quantity: Amount,
    now: u64,
    other: Seq<char>,
)
    requires
        before.registered(&after, id, symbol, side, quantity, now),
        before.orders_today < u64::MAX,
        other != id,
    ensures
        after.orders().contains_key(id),
        ({
            let o = after.orders()[id];
            &&& o.client_order_id == id
            &&& o.symbol == symbol
            &&& o.side == side
            &&& o.quantity == quantity
            &&& o.filled_quantity.units == 0
            &&& o.average_price.units == 0
            &&& o.status == BinanceOrderStatus::New
            &&& o.created_at_ns == now
            &&& o.updated_at_ns == now
            &&& o.fill_count == 0
        }),
        after.pending_orders@.contains_key(id),
        after.pending_orders@[id] * 1_000_000 <= now < (after.pending_orders@[id] + 1) * 1_000_000,
        ids_for(after.orders_by_symbol@, symbol).contains(id),
        after.orders_today == before.orders_today + 1,
        after.fills_today == before.fills_today,
        after.orders().contains_key(other) <==> before.orders().contains_key(other),
        before.orders().contains_key(other) ==> after.orders()[other] == before.orders()[other],
{
    let ids = ids_for(before.orders_by_symbol@, symbol);
    assert(ids_for(after.orders_by_symbol@, symbol) == with_id(ids, id));
    crate::base::sequences::lemma_push_holds(ids, id, id);
}

/// A report sets quantity filled, average price and status of its order to what
/// it says, keeps what the order was sent with, ends the wait, keeps the report
/// where the order is over, and counts a fill where something was executed.
pub proof fn law_report_is_taken_over(
    before: BinanceOrderManager,
    after: BinanceOrderManager,
    update: BinanceOrderUpdate,
    now: u64,
    other: Seq<char>,
)
    requires
        before.reported(&after, update, now),
        before.fills_today < u64::MAX,
        before.known_or_new(update, now).fill_count < u32::MAX,
        other != update.client_order_id@,
    ensures
        ({
            let id = update.client_order_id@;
            let o = after.orders()[id];
            &&& after.orders().contains_key(id)
            &&& o.filled_quantity == update.executed_qty
            &&& o.average_price == update.average_price
            &&& o.status == update.status
            &&& o.updated_at_ns == now
            &&& before.orders().contains_key(id) ==> {
                let p = before.orders()[id];
                &&& o.symbol == p.symbol
                &&& o.side == p.side
                &&& o.quantity == p.quantity
                &&& o.created_at_ns == p.created_at_ns
                &&& update.last_executed_qty.units > 0 ==> o.fill_count == p.fill_count + 1
                &&& update.last_executed_qty.units <= 0 ==> o.fill_count == p.fill_count
            }
            &&& !before.orders().contains_key(id) ==> o.symbol == update.symbol@ && o.side
                == update.side && o.quantity == update.quantity && o.created_at_ns == now
            &&& !after.pending_orders@.contains_key(id)
            &&& is_final(update.status) ==> after.filled_orders@.contains_key(id)
                && after.filled_orders@[id] == update
            &&& !is_final(update.status) ==> after.filled_orders@ == before.filled_orders@
            &&& update.last_executed_qty.units > 0 ==> after.fills_today == before.fills_today + 1
            &&& update.last_executed_qty.units <= 0 ==> after.fills_today == before.fills_today
        }),
        after.orders_today == before.orders_today,
        after.pending_orders@.contains_key(other) <==> before.pending_orders@.contains_key(other),
        after.orders().contains_key(other) <==> before.orders().contains_key(other),
        before.orders().contains_key(other) ==> after.orders()[other] == before.orders()[other],
{
}

/// An order is counted as open exactly where its status is.
pub proof fn law_open_orders_counted(
    s: Seq<(String, LocalOrderState)>,
    key: String,
    o: LocalOrderState,
)
    ensures
        open_count(Seq::empty()) == 0,
        is_open(o.status) ==> open_count(s.push((key, o))) == open_count(s) + 1,
        !is_open(o.status) ==> open_count(s.push((key, o))) == open_count(s),
{
    assert(s.push((key, o)).drop_last() =~= s);
}

/// A wait longer than the longest is stale, and no other.
pub proof fn law_long_waits_are_stale(
    s: Seq<(String, u64)>,
    key: String,
    since: u64,
    now: u64,
    longest: u64,
)
    requires
        since <= now,
    ensures
        now - since > longest ==> stale_keys(s.push((key, since)), now, longest) == stale_keys(
            s,
            now,
            longest,
        ).push(key@),
        now - since <= longest ==> stale_keys(s.push((key, since)), now, longest) == stale_keys(
            s,
            now,
            longest,
        ),
{
    assert(s.push((key, since)).drop_last() =~= s);
}

/// The open orders of a symbol are those with its name and an open status.
pub proof fn law_open_orders_of_symbol(
    ids: Seq<Seq<char>>,
    id: Seq<char>,
    orders: Map<Seq<char>, LocalOrderState>,
    symbol: Seq<char>,
)
    ensures
        orders.contains_key(id) && is_open(orders[id].status) && orders[id].symbol@ == symbol
            ==> open_orders(ids.push(id), orders, symbol) == open_orders(ids, orders, symbol).push(
            orders[id],
        ),
        !orders.contains_key(id) || !is_open(orders[id].status) || orders[id].symbol@ != symbol
            ==> open_orders(ids.push(id), orders, symbol) == open_orders(ids, orders, symbol),
{
    assert(ids.push(id).drop_last() =~= ids);
}

/// Old orders are the filled ones last changed before the given hours ago.
pub proof fn law_old_orders(o: LocalOrderState, now: u64, hours: u64)
    requires
        hours * 3_600 * 1_000_000_000 <= now,
    ensures
        filled_before(o, BinanceOrderManager::hours_before(now, hours) as u64) <==> o.status
            == BinanceOrderStatus::Filled && now - o.updated_at_ns > hours * 3_600 * 1_000_000_000,
{
}

/// Tokens flow in at the rate per second, once a thousandth of a second passed.
pub proof fn law_tokens_flow_in(rate: u64, last: u64, now: u64)
    ensures
        now < last + 1_000_000 ==> inflow(rate, last, now) == 0,
        now >= last + 1_000_000 ==> inflow(rate, last, now) * 1_000_000_000 <= (now - last) * rate
            < (inflow(rate, last, now) + 1) * 1_000_000_000,
        inflow(rate, 0, 1_000_000_000) == rate,
{
    if now >= last + 1_000_000 {
        let x = (now - last) * rate;
        assert(x >= 0) by (nonlinear_arith)
            requires
                x == (now - last) * rate,
                now >= last,
        ;
    }
    assert((1_000_000_000 - 0) * rate == rate * 1_000_000_000) by (nonlinear_arith);
}

/// A bucket fills up to its capacity and no further; where nothing flows in, it
/// stays as it is.
pub proof fn law_bucket_fills_up(b: TokenBucket, now: u64)
    requires
        b.wf(),
    ensures
        ({
            let f = b.refilled(now);
            let added = inflow(b.refill_rate, b.last_refill_ns, now);
            &&& added == 0 ==> f == b
            &&& added > 0 && b.tokens + added <= b.capacity ==> f.tokens == b.tokens + added
            &&& added > 0 && b.tokens + added > b.capacity ==> f.tokens == b.capacity
            &&& added > 0 ==> f.last_refill_ns == now
            &&& f.capacity == b.capacity
            &&& f.refill_rate == b.refill_rate
            &&& f.tokens >= b.tokens
        }),
{
}

/// A request is allowed exactly where the refilled bucket holds its tokens, and
/// takes them; otherwise it takes none and is told how long to wait.
pub proof fn law_request_is_answered(b: TokenBucket, tokens: u64, now: u64)
    requires
        b.wf(),
    ensures
        ({
            let r = b.answer(tokens, now);
            let held = b.refilled(now).tokens;
            &&& r.allowed <==> held >= tokens
            &&& r.allowed ==> r.wait_time_ms == 0 && r.retry_after_ms is None && r.tokens_remaining
                == held - tokens && b.after_request(tokens, now).tokens == held - tokens
            &&& !r.allowed ==> r.tokens_remaining == held && r.retry_after_ms == Some(
                r.wait_time_ms,
            ) && b.after_request(tokens, now).tokens == held
        }),
{
}

/// The wait, in milliseconds, is just long enough for the missing tokens.
pub proof fn law_wait_is_just_long_enough(needed: nat, rate: u64)
    requires
        rate > 0,
        wait_for(needed, rate) < 0xffff_ffff_ffff_ffff,
    ensures
        wait_for(needed, rate) * rate >= needed * 1000,
        needed > 0 ==> (wait_for(needed, rate) - 1) * rate < needed * 1000,
{
    let r = rate as int;
    let x = needed * 1000 + r - 1;
    let q = x / r;
    assert(q * r >= needed * 1000 && (q - 1) * r < needed * 1000) by (nonlinear_arith)
        requires
            r > 0,
            x == needed * 1000 + r - 1,
            q == x / r,
    ;
}

/// A limiter starts with full buckets: the weight per minute flows in by the
/// second, orders and raw requests at their own rates.
pub proof fn law_limits_fill_buckets(l: BinanceRateLimiter, limits: BinanceRateLimits)
    requires
        l.fresh_buckets(limits),
    ensures
        l.wf(),
        l.request_bucket.tokens == l.request_bucket.capacity,
        l.request_bucket.capacity == limits.request_weight_per_min,
        l.request_bucket.refill_rate * 60 <= limits.request_weight_per_min
            < l.request_bucket.refill_rate * 60 + 60,
        l.order_bucket.tokens == l.order_bucket.capacity,
        l.order_bucket.capacity == limits.orders_per_second,
        l.order_bucket.refill_rate == limits.orders_per_second,
        l.raw_request_bucket.tokens == l.raw_request_bucket.capacity,
        l.raw_request_bucket.capacity == limits.raw_requests_per_sec,
        l.raw_request_bucket.refill_rate == limits.raw_requests_per_sec,
{
}

/// A request takes its weight from its own bucket alone and is counted; one that
/// is refused is counted as such. An order takes one token from the bucket of
/// orders, a raw request one from its own.
pub proof fn law_limiter_counts(l: BinanceRateLimiter, weight: u64, now: u64)
    requires
        l.wf(),
        l.total_requests_today < u64::MAX,
        l.total_orders_today < u64::MAX,
        l.rate_limit_exceeded_count < u64::MAX,
    ensures
        ({
            let r = l.after_check_request(weight, now);
            let ok = l.request_bucket.refilled(now).tokens >= weight;
            &&& r.request_bucket == l.request_bucket.after_request(weight, now)
            &&& r.order_bucket == l.order_bucket
            &&& r.raw_request_bucket == l.raw_request_bucket
            &&& ok ==> r.total_requests_today == l.total_requests_today + 1
                && r.rate_limit_exceeded_count == l.rate_limit_exceeded_count
            &&& !ok ==> r.total_requests_today == l.total_requests_today
                && r.rate_limit_exceeded_count == l.rate_limit_exceeded_count + 1
            &&& r.total_orders_today == l.total_orders_today
        }),
        ({
            let r = l.after_check_order(now);
            let ok = l.order_bucket.refilled(now).tokens >= 1;
            &&& r.order_bucket == l.order_bucket.after_request(1, now)
            &&& r.request_bucket == l.request_bucket
            &&& r.raw_request_bucket == l.raw_request_bucket
            &&& ok ==> r.total_orders_today == l.total_orders_today + 1
                && r.rate_limit_exceeded_count == l.rate_limit_exceeded_count
            &&& !ok ==> r.total_orders_today == l.total_orders_today
                && r.rate_limit_exceeded_count == l.rate_limit_exceeded_count + 1
            &&& r.total_requests_today == l.total_requests_today
        }),
        ({
            let r = l.after_check_raw(now);
            let ok = l.raw_request_bucket.refilled(now).tokens >= 1;
            &&& r.raw_request_bucket == l.raw_request_bucket.after_request(1, now)
            &&& r.request_bucket == l.request_bucket
            &&& r.order_bucket == l.order_bucket
            &&& ok ==> r.total_requests_today == l.total_requests_today + 1
            &&& !ok ==> r.total_requests_today == l.total_requests_today
        }),
{
}

/// An order may go out exactly where both answers allow it, and otherwise waits
/// for the longer of the two.
pub proof fn law_order_needs_both(request: RateLimitResult, order: RateLimitResult)
    ensures
        ({
            let p = BinanceRateLimiter::pre_order_answer(request, order);
            &&& p.allowed <==> request.allowed && order.allowed
            &&& p.max_wait_ms >= request.wait_time_ms
            &&& p.max_wait_ms >= order.wait_time_ms
            &&& p.max_wait_ms == request.wait_time_ms || p.max_wait_ms == order.wait_time_ms
            &&& !request.allowed ==> p.request_wait_ms == request.wait_time_ms
            &&& !order.allowed ==> p.order_wait_ms == order.wait_time_ms
            &&& request.allowed ==> p.request_wait_ms == 0
            &&& order.allowed ==> p.order_wait_ms == 0
        }),
{
}

} // verus!
