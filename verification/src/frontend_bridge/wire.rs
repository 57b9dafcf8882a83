//! What interfaces are sent: where each part of a message stands, and what the
//! answers to requests say.

use vstd::prelude::*;
use vstd::bytes::{
    lemma_auto_spec_u32_to_from_le_bytes, lemma_auto_spec_u64_to_from_le_bytes,
    spec_u32_from_le_bytes, spec_u64_from_le_bytes,
};
use crate::base::amount::{eight_places, four_places, number_text, Amount};
use crate::base::text::signed_decimal;
use crate::frontend_bridge::rest_api_server::{
    endpoint_key, method_name, ApiResponse, HttpMethod, RestApiServer, TokenBucket,
};
use crate::frontend_bridge::ws_broadcaster::{
    active_count, all_served, highest, point_list, point_text, sampled, series_text, ClientHandle,
    Roster, WsBroadcaster, WsMessageHeader, WsMessageType,
};

verus! {

/// Every kind of message has its own code.
pub proof fn law_message_codes()
    ensures
        WsMessageType::OrderBook.code() == 0,
        WsMessageType::PnL.code() == 1,
        WsMessageType::Signal.code() == 2,
        WsMessageType::Log.code() == 3,
        WsMessageType::Heartbeat.code() == 255,
{
}

/// A header has twenty-four bytes: the kind first, the flags second, the
/// sequence from the fifth, the length of what follows from the ninth and the
/// time from the seventeenth, each with its lowest byte first.
pub proof fn law_header_layout(h: WsMessageHeader)
    ensures
        h.bytes().len() == 24,
        h.bytes()[0] == h.msg_type,
        h.bytes()[1] == h.flags,
        h.bytes()[2] == 0 && h.bytes()[3] == 0,
        spec_u32_from_le_bytes(h.bytes().subrange(4, 8)) == h.sequence,
        spec_u32_from_le_bytes(h.bytes().subrange(8, 12)) == h.payload_len,
        forall|i: int| 12 <= i < 16 ==> #[trigger] h.bytes()[i] == 0,
        spec_u64_from_le_bytes(h.bytes().subrange(16, 24)) == h.timestamp_ns,
{
    lemma_auto_spec_u32_to_from_le_bytes();
    lemma_auto_spec_u64_to_from_le_bytes();
    assert(h.bytes().subrange(4, 8) =~= vstd::bytes::spec_u32_to_le_bytes(h.sequence));
    assert(h.bytes().subrange(8, 12) =~= vstd::bytes::spec_u32_to_le_bytes(h.payload_len));
    assert(h.bytes().subrange(16, 24) =~= vstd::bytes::spec_u64_to_le_bytes(h.timestamp_ns));
}

/// A message is its header and what it carries: the code of its kind, the number
/// of the message, the length and the time, and then the payload.
pub proof fn law_message_layout(
    b: WsBroadcaster,
    kind: WsMessageType,
    payload: Seq<u8>,
    now: u64,
)
    requires
        b.sequence <= u32::MAX,
        payload.len() <= u32::MAX,
    ensures
        ({
            let m = b.message(kind, payload, now);
            &&& m.len() == 24 + payload.len()
            &&& m[0] == kind.code()
            &&& spec_u32_from_le_bytes(m.subrange(4, 8)) == b.sequence
            &&& spec_u32_from_le_bytes(m.subrange(8, 12)) == payload.len()
            &&& spec_u64_from_le_bytes(m.subrange(16, 24)) == now
            &&& m.skip(24) == payload
        }),
{
    let h = WsMessageHeader {
        msg_type: kind.code(),
        flags: 0,
        sequence: b.sequence as u32,
        payload_len: payload.len() as usize as u32,
        timestamp_ns: now,
    };
    law_header_layout(h);
    let m = b.message(kind, payload, now);
    assert(m =~= h.bytes() + payload);
    assert(m.subrange(4, 8) =~= h.bytes().subrange(4, 8));
    assert(m.subrange(8, 12) =~= h.bytes().subrange(8, 12));
    assert(m.subrange(16, 24) =~= h.bytes().subrange(16, 24));
    assert(m.skip(24) =~= payload);
}

/// While it runs, a message is built, every active client is served it, and the
/// number goes up; while it does not, nothing changes.
pub proof fn law_message_goes_to_active_clients(
    before: WsBroadcaster,
    after: WsBroadcaster,
    kind: WsMessageType,
    payload: Seq<u8>,
    now: u64,
    i: int,
)
    requires
        after.sent(before, kind, payload, now),
        0 <= i < before.clients@.len(),
        before.clients@[i].messages_sent < u64::MAX,
    ensures
        before.running ==> {
            &&& after.message_buffer@ == before.message(kind, payload, now)
            &&& after.sequence == before.sequence + 1
            &&& after.clients@.len() == before.clients@.len()
            &&& after.clients@[i].client_id == before.clients@[i].client_id
            &&& before.clients@[i].is_active ==> after.clients@[i].messages_sent
                == before.clients@[i].messages_sent + 1 && after.clients@[i].last_heartbeat
                * 1_000_000 <= now < (after.clients@[i].last_heartbeat + 1) * 1_000_000
            &&& !before.clients@[i].is_active ==> after.clients@[i] == before.clients@[i]
        },
        !before.running ==> after == before,
{
}

/// Active clients are counted, others are not.
pub proof fn law_active_clients_counted(s: Seq<ClientHandle>, c: ClientHandle)
    ensures
        active_count(Seq::empty()) == 0,
        c.is_active ==> active_count(s.push(c)) == active_count(s) + 1,
        !c.is_active ==> active_count(s.push(c)) == active_count(s),
{
    assert(s.push(c).drop_last() =~= s);
}

/// A client that is let in is active, has the next number and was sent nothing;
/// a full house lets none in. Stopping sends all away.
pub proof fn law_clients_come_and_go(r: Roster, now: u64)
    requires
        r.next_client_id < u64::MAX,
    ensures
        r.clients.len() < r.max_clients ==> {
            let n = r.added(now);
            &&& r.offer() == Some(r.next_client_id)
            &&& n.clients.len() == r.clients.len() + 1
            &&& n.clients.last().client_id == r.next_client_id
            &&& n.clients.last().is_active
            &&& n.clients.last().messages_sent == 0
            &&& n.clients.last().connected_at == now
            &&& n.clients.last().last_heartbeat == now
            &&& n.next_client_id == r.next_client_id + 1
            &&& n.running == r.running
        },
        r.clients.len() >= r.max_clients ==> r.offer() is None && r.added(now) == r,
        r.started().running,
        r.started().clients == r.clients,
        !r.stopped().running,
        r.stopped().clients.len() == 0,
{
}

/// Of each stretch of a series the point with the highest value is kept, the
/// last of them where several have it.
pub proof fn law_highest_point(s: Seq<(Amount, Amount)>, i: int)
    requires
        0 <= i < s.len(),
    ensures
        s[i].1.units <= highest(s).1.units,
        s.contains(highest(s)),
    decreases s.len(),
{
    if s.len() > 1 {
        let d = s.drop_last();
        law_highest_point(d, if i < d.len() {
            i
        } else {
            0
        });
        assert(d.push(s.last()) =~= s);
        crate::base::sequences::lemma_push_holds(d, s.last(), highest(s));
        if i < d.len() {
            assert(d[i] == s[i]);
        }
    } else {
        assert(s.contains(s[0]));
    }
}

/// A series that is short enough is kept whole; a longer one is thinned to as
/// many points as wanted, one of each stretch.
pub proof fn law_series_thinned(s: Seq<(Amount, Amount)>, target: int, i: int)
    requires
        2 <= target < s.len(),
        0 < i < target - 1,
    ensures
        sampled(s, target).len() == target,
        ({
            let size = s.len() as int / target;
            &&& size >= 1
            &&& sampled(s, target)[i] == highest(s.subrange(i * size, (i + 1) * size))
        }),
        sampled(s.take(target), target) == s.take(target),
{
    let size = s.len() as int / target;
    assert(size >= 1) by (nonlinear_arith)
        requires
            size == s.len() as int / target,
            2 <= target < s.len(),
    ;
    let k = i - 1;
    assert(sampled(s, target)[i] == highest(s.subrange((k + 1) * size, (k + 2) * size)));
}

/// The texts hold their figures in order, a colon between each two.
pub proof fn law_texts_in_order(
    total: Amount,
    realized: Amount,
    unrealized: Amount,
    symbol: Seq<char>,
    side: i8,
    quantity: Amount,
    confidence: Amount,
)
    ensures
        WsBroadcaster::pnl_text(total, realized, unrealized) == eight_places(
            total.units as int,
        ) + ":"@ + eight_places(realized.units as int) + ":"@
            + eight_places(unrealized.units as int),
        WsBroadcaster::signal_text(symbol, side, quantity, confidence) == symbol + ":"@
            + signed_decimal(side as int) + ":"@
            + four_places(quantity.units as int) + ":"@
            + four_places(confidence.units as int),
{
}

/// Methods have their own names, and an endpoint is found by method and path.
pub proof fn law_endpoint_keys(path: Seq<char>)
    ensures
        method_name(HttpMethod::GET) == "GET"@,
        method_name(HttpMethod::POST) == "POST"@,
        method_name(HttpMethod::PUT) == "PUT"@,
        method_name(HttpMethod::DELETE) == "DELETE"@,
        endpoint_key(HttpMethod::GET, path) == "GET"@ + ":"@ + path,
{
}

/// Tokens are earned at the rate per second, up to the burst; a request is
/// admitted exactly where one is there, and takes it.
pub proof fn law_request_takes_token(b: TokenBucket, now: u64)
    requires
        b.wf(),
    ensures
        now >= b.last_refill ==> b.earned(now) * 1_000_000_000 <= (now - b.last_refill)
            * b.config.requests_per_second < (b.earned(now) + 1) * 1_000_000_000,
        now < b.last_refill ==> b.earned(now) == 0,
        b.earned(now) == 0 ==> b.refilled(now) == b,
        b.earned(now) > 0 && b.tokens + b.earned(now) <= b.config.burst_size ==> b.refilled(
            now,
        ).tokens == b.tokens + b.earned(now),
        b.earned(now) > 0 && b.tokens + b.earned(now) >= b.config.burst_size ==> b.refilled(
            now,
        ).tokens == b.config.burst_size,
        b.earned(now) > 0 ==> b.refilled(now).last_refill == now,
        b.admits(now) <==> b.refilled(now).tokens >= 1,
        b.admits(now) ==> b.after_request(now).tokens == b.refilled(now).tokens - 1,
        !b.admits(now) ==> b.after_request(now).tokens == 0,
{
}

/// A request above the rate is answered with too many requests, one for an
/// unknown endpoint with not found, and any other by its endpoint; each is
/// counted, and those above the rate as rejected.
pub proof fn law_requests_answered<H: Fn(&str) -> ApiResponse>(
    s: RestApiServer<H>,
    after: RestApiServer<H>,
    method: HttpMethod,
    path: Seq<char>,
    body: &str,
    now: u64,
    r: ApiResponse,
)
    requires
        s.answered(method, path, body, now, r),
        s.counted(&after, now),
        s.request_count < u64::MAX,
        s.rejected_count < u64::MAX,
    ensures
        !s.rate_limiter.admits(now) ==> r.status_code == 429 && after.rejected_count
            == s.rejected_count + 1,
        s.rate_limiter.admits(now) ==> after.rejected_count == s.rejected_count,
        s.rate_limiter.admits(now) && !s.endpoints@.contains_key(endpoint_key(method, path))
            ==> r.status_code == 404,
        s.rate_limiter.admits(now) && s.endpoints@.contains_key(endpoint_key(method, path))
            ==> call_ensures(s.endpoints@[endpoint_key(method, path)].handler, (body,), r),
        after.request_count == s.request_count + 1,
        after.rate_limiter == s.rate_limiter.after_request(now),
{
}

/// A series lists its points in order, price before quantity, between brackets
/// and parted by commas; a book tells its bids before its asks.
pub proof fn law_series_in_order(
    s: Seq<(Amount, Amount)>,
    p: (Amount, Amount),
    symbol: Seq<char>,
    bids: Seq<(Amount, Amount)>,
    asks: Seq<(Amount, Amount)>,
)
    ensures
        series_text(Seq::empty()) == "["@ + "]"@,
        series_text(seq![p]) == "["@ + point_text(p) + "]"@,
        point_text(p) == "("@ + number_text(p.0.units as int) + ", "@ + number_text(
            p.1.units as int,
        ) + ")"@,
        s.len() > 0 ==> point_list(s.push(p)) == point_list(s) + ", "@ + point_text(p),
        series_text(s) == "["@ + point_list(s) + "]"@,
        WsBroadcaster::orderbook_text(symbol, bids, asks) == symbol + ":"@ + series_text(
            sampled(bids, 50),
        ) + ":"@ + series_text(sampled(asks, 50)),
{
    assert(s.push(p).drop_last() =~= s);
    assert(series_text(Seq::empty()) =~= "["@ + "]"@);
}

/// An error is told as an object of one entry, under the status it has.
pub proof fn law_error_told(r: ApiResponse, status: u16, message: Seq<char>)
    requires
        r.is_error(status, message),
    ensures
        r.status_code == status,
        r.body@ == "{\"error\":\""@ + message + "\"}"@,
        r.content_type@ == "application/json"@,
{
}

} // verus!
