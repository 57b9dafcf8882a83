//! The Bybit V5 WebSocket gateway: signatures, subscriptions, rate limits and
//! reconnection.

use vstd::prelude::*;
use vstd::string::StringSliceAdditionalSpecFns;
use vstd::utf8::encode_utf8;
use crate::base::amount::Amount;
use crate::base::bytes::{text_of, to_text};
use crate::base::clock::{now_ms, now_ns};
use crate::base::crypto::{hex_encode, hex_text, hmac_sha256, hmac_sha256_of};
use crate::base::decimals::{amount_or_zero, parse_or_zero};
use crate::base::json::{
    held_json, held_list, json_array, json_number, json_string, json_text, make_operation,
    operation, render_json, text_list, JsonTree,
};
use crate::base::text::{contains, contains_part, decimal, push_decimal, views};

verus! {

/// Credentials of an account.
#[derive(Debug, Clone)]
pub struct BybitCredentials {
    pub api_key: String,
    pub api_secret: String,
}

/// What a topic message brings.
#[derive(Debug, Clone)]
pub enum BybitMessage {
    OrderbookLevel1(OrderbookSnapshot),
    OrderbookLevel50(OrderbookSnapshot),
    OrderbookLevel500(OrderbookSnapshot),
    Trade(TradeData),
    Kline1(KlineData),
    Kline5(KlineData),
    Kline15(KlineData),
}

/// An order book: symbol, bids, asks, update number and sequence number.
#[derive(Debug, Clone)]
pub struct OrderbookSnapshot {
    pub s: String,
    pub b: Vec<[String; 2]>,
    pub a: Vec<[String; 2]>,
    pub u: u64,
    pub seq: u64,
}

/// An order book: prices and sizes.
#[derive(Debug, Clone)]
pub struct UnifiedOrderbook {
    pub symbol: String,
    pub bids: Vec<(Amount, Amount)>,
    pub asks: Vec<(Amount, Amount)>,
    pub update_id: u64,
    pub sequence: u64,
}

/// The price and the size of each level.
pub open spec fn levels(v: Seq<[String; 2]>) -> Seq<(Amount, Amount)> {
    Seq::new(v.len(), |i: int| (amount_or_zero(v[i]@[0]@), amount_or_zero(v[i]@[1]@)))
}

fn read_levels(v: &Vec<[String; 2]>) -> (out: Vec<(Amount, Amount)>)
    ensures
        out@ == levels(v@),
{
    let mut out: Vec<(Amount, Amount)> = Vec::new();
    let mut i: usize = 0;
    while i < v.len()
        invariant
            i <= v@.len(),
            out@ == levels(v@).take(i as int),
        decreases v@.len() - i,
    {
        let level: &[String; 2] = &v[i];
        out.push((parse_or_zero(level[0].as_str()), parse_or_zero(level[1].as_str())));
        i += 1;
        assert(out@ =~= levels(v@).take(i as int));
    }
    assert(out@ =~= levels(v@));
    out
}

/// Trades of a symbol.
#[derive(Debug, Clone)]
pub struct TradeData {
    pub s: String,
    pub v: Vec<Trade>,
}

/// A trade: time, symbol, side, volume and price.
#[derive(Debug, Clone)]
#[allow(non_snake_case)]
pub struct Trade {
    pub T: u64,
    pub s: String,
    pub S: String,
    pub v: String,
    pub p: String,
}

/// Klines of a symbol.
#[derive(Debug, Clone)]
pub struct KlineData {
    pub s: String,
    pub k: Vec<Kline>,
}

/// A kline.
#[derive(Debug, Clone)]
pub struct Kline {
    pub start: u64,
    pub end: u64,
    pub interval: String,
    pub open: String,
    pub close: String,
    pub high: String,
    pub low: String,
    pub volume: String,
    pub turnover: String,
    pub confirm: bool,
}

/// Why a message cannot be read.
#[derive(Debug, Clone, Copy, PartialEq, Eq, Structural)]
pub enum BybitMessageError {
    InvalidUtf8,
}

/// Requests stand at least this far apart, in nanoseconds.
pub const REQUEST_GAP_NS: u64 = 100_000_000;

/// The window in which the exchange accepts a request, in milliseconds.
pub const RECV_WINDOW_MS: u64 = 5000;

/// The longest delay before a reconnection, in milliseconds.
pub const MAX_RECONNECT_DELAY_MS: u64 = 60_000;

/// The signature of a time and a window.
pub open spec fn signature(secret: Seq<char>, timestamp: u64, recv_window: u64) -> Seq<char> {
    hex_text(
        hmac_sha256_of(
            encode_utf8(secret),
            encode_utf8(secret + decimal(timestamp as nat) + decimal(recv_window as nat)),
        ),
    )
}

/// The arguments of an authentication request.
pub open spec fn auth_args(key: Seq<char>, secret: Seq<char>, timestamp: u64) -> JsonTree {
    JsonTree::List(
        seq![
            JsonTree::Text(key),
            JsonTree::Number { unsigned: Some(timestamp), text: decimal(timestamp as nat) },
            JsonTree::Number {
                unsigned: Some(RECV_WINDOW_MS),
                text: decimal(RECV_WINDOW_MS as nat),
            },
            JsonTree::Text(signature(secret, timestamp, RECV_WINDOW_MS)),
        ],
    )
}

/// How long a request waits after the last one.
pub open spec fn pause_after(last: u64, now: u64) -> int {
    if now - last < REQUEST_GAP_NS {
        if now < last {
            REQUEST_GAP_NS as int
        } else {
            REQUEST_GAP_NS - (now - last)
        }
    } else {
        0
    }
}

/// The wait before the next attempt to connect.
pub open spec fn next_delay(delay_ms: u64) -> u64 {
    if delay_ms * 2 < MAX_RECONNECT_DELAY_MS {
        (delay_ms * 2) as u64
    } else {
        MAX_RECONNECT_DELAY_MS
    }
}

/// Whether a book says what a snapshot does.
pub open spec fn is_book(snapshot: OrderbookSnapshot, r: UnifiedOrderbook) -> bool {
    &&& r.symbol@ == snapshot.s@
    &&& r.bids@ == levels(snapshot.b@)
    &&& r.asks@ == levels(snapshot.a@)
    &&& r.update_id == snapshot.u
    &&& r.sequence == snapshot.seq
}

/// The topic of an order book.
pub open spec fn orderbook_topic(symbol: Seq<char>, depth: usize) -> Seq<char> {
    if depth == 1 {
        "orderbook.1."@ + symbol
    } else if depth == 50 {
        "orderbook.50."@ + symbol
    } else {
        "orderbook.500."@ + symbol
    }
}

/// Whether a message answers a ping or a subscription.
pub open spec fn is_control(text: Seq<char>) -> bool {
    contains_part(text, "\"op\":\"ping\""@) || contains_part(text, "\"op\":\"pong\""@)
        || contains_part(text, "\"op\":\"subscribe\""@)
}

/// A connection to the exchange.
pub struct BybitWsGateway {
    pub credentials: Option<BybitCredentials>,
    pub subscriptions: Vec<String>,
    pub rate_limit_tokens: u32,
    /// When the last request was made, in nanoseconds.
    pub last_request_ns: u64,
    pub reconnect_delay_ms: u64,
    pub heartbeat_interval_sec: u64,
}

impl BybitWsGateway {
    /// A gateway without subscriptions.
    pub fn new(credentials: Option<BybitCredentials>) -> (g: Self)
        ensures
            g.credentials == credentials,
            g.subscriptions@.len() == 0,
            g.rate_limit_tokens == 10,
            g.reconnect_delay_ms == 1000,
            g.heartbeat_interval_sec == 20,
    {
        BybitWsGateway {
            credentials,
            subscriptions: Vec::new(),
            rate_limit_tokens: 10,
            last_request_ns: now_ns(),
            reconnect_delay_ms: 1000,
            heartbeat_interval_sec: 20,
        }
    }

    /// The signature of a time and a window under a secret.
    pub fn generate_signature(&self, api_secret: &str, timestamp: u64, recv_window: u64) -> (r:
        String)
        ensures
            r@ == signature(api_secret@, timestamp, recv_window),
    {
        let mut param = api_secret.to_owned();
        push_decimal(&mut param, timestamp);
        push_decimal(&mut param, recv_window);
        let mac = hmac_sha256(api_secret.as_bytes(), param.as_str().as_bytes());
        hex_encode(mac.as_slice())
    }

    /// The authentication request for a time, where there are credentials.
    pub fn build_auth_request_at(&self, timestamp: u64) -> (r: Option<String>)
        ensures
            r is Some <==> self.credentials is Some,
            r matches Some(s) ==> s@ == json_text(
                operation(
                    "auth"@,
                    auth_args(
                        self.credentials->0.api_key@,
                        self.credentials->0.api_secret@,
                        timestamp,
                    ),
                ),
            ),
    {
        match &self.credentials {
            Some(creds) => {
                let sign = self.generate_signature(
                    creds.api_secret.as_str(),
                    timestamp,
                    RECV_WINDOW_MS,
                );
                let mut args: Vec<serde_json::Value> = Vec::new();
                args.push(json_string(creds.api_key.as_str()));
                args.push(json_number(timestamp));
                args.push(json_number(RECV_WINDOW_MS));
                args.push(json_string(sign.as_str()));
                assert(JsonTree::List(held_list(args@)) == auth_args(
                    creds.api_key@,
                    creds.api_secret@,
                    timestamp,
                )) by {
                    assert(held_list(args@) =~= auth_args(
                        creds.api_key@,
                        creds.api_secret@,
                        timestamp,
                    )->List_0);
                }
                Some(render_json(&make_operation("auth", json_array(args))))
            },
            None => None,
        }
    }

    /// The authentication request, where there are credentials.
    pub fn build_auth_request(&self) -> (r: Option<String>)
        ensures
            r is Some <==> self.credentials is Some,
            r matches Some(s) ==> exists|timestamp: u64|
                s@ == json_text(
                    operation(
                        "auth"@,
                        #[trigger] auth_args(
                            self.credentials->0.api_key@,
                            self.credentials->0.api_secret@,
                            timestamp,
                        ),
                    ),
                ),
    {
        self.build_auth_request_at(now_ms())
    }

    fn subscribe(&mut self, topic: &String)
        ensures
            views(final(self).subscriptions@) == views(old(self).subscriptions@).push(topic@),
            *final(self) == (BybitWsGateway {
                subscriptions: final(self).subscriptions,
                ..*old(self)
            }),
    {
        let ghost before = views(self.subscriptions@);
        self.subscriptions.push(topic.clone());
        assert(views(self.subscriptions@) =~= before.push(topic@));
    }

    /// Subscribes to an order book, and returns its topic.
    pub fn subscribe_orderbook(&mut self, symbol: &str, depth: usize) -> (topic: String)
        ensures
            topic@ == orderbook_topic(symbol@, depth),
            views(final(self).subscriptions@) == views(old(self).subscriptions@).push(topic@),
            *final(self) == (BybitWsGateway {
                subscriptions: final(self).subscriptions,
                ..*old(self)
            }),
    {
        let mut topic = match depth {
            1 => "orderbook.1.".to_owned(),
            50 => "orderbook.50.".to_owned(),
            _ => "orderbook.500.".to_owned(),
        };
        topic.push_str(symbol);
        self.subscribe(&topic);
        topic
    }

    /// Subscribes to trades, and returns their topic.
    pub fn subscribe_trades(&mut self, symbol: &str) -> (topic: String)
        ensures
            topic@ == "publicTrade."@ + symbol@,
            views(final(self).subscriptions@) == views(old(self).subscriptions@).push(topic@),
            *final(self) == (BybitWsGateway {
                subscriptions: final(self).subscriptions,
                ..*old(self)
            }),
    {
        let mut topic = "publicTrade.".to_owned();
        topic.push_str(symbol);
        self.subscribe(&topic);
        topic
    }

    /// Subscribes to klines, and returns their topic.
    pub fn subscribe_kline(&mut self, symbol: &str, interval: &str) -> (topic: String)
        ensures
            topic@ == "kline."@ + interval@ + "."@ + symbol@,
            views(final(self).subscriptions@) == views(old(self).subscriptions@).push(topic@),
            *final(self) == (BybitWsGateway {
                subscriptions: final(self).subscriptions,
                ..*old(self)
            }),
    {
        let mut topic = "kline.".to_owned();
        topic.push_str(interval);
        topic.push_str(".");
        topic.push_str(symbol);
        self.subscribe(&topic);
        topic
    }

    /// The request that subscribes to topics.
    pub fn build_subscribe_message(&self, topics: &[String]) -> (r: String)
        ensures
            r@ == json_text(operation("subscribe"@, text_list(views(topics@)))),
    {
        let mut args: Vec<serde_json::Value> = Vec::new();
        let mut i: usize = 0;
        while i < topics.len()
            invariant
                i <= topics@.len(),
                args@.len() == i,
                forall|k: int|
                    0 <= k < i ==> held_json(#[trigger] args@[k]) == JsonTree::Text(topics@[k]@),
            decreases topics@.len() - i,
        {
            args.push(json_string(topics[i].as_str()));
            i += 1;
        }
        assert(held_list(args@) =~= text_list(views(topics@))->List_0);
        render_json(&make_operation("subscribe", json_array(args)))
    }

    /// How long to wait before the next request, in nanoseconds, as of `now`.
    pub fn rate_limit_wait_at(&self, now: u64) -> (wait: u64)
        ensures
            wait == pause_after(self.last_request_ns, now),
    {
        let elapsed: u64 = now.saturating_sub(self.last_request_ns);
        if elapsed < REQUEST_GAP_NS {
            REQUEST_GAP_NS - elapsed
        } else {
            0
        }
    }

    /// Takes note of a request at `now`: a token comes back, up to ten.
    pub fn request_made_at(&mut self, now: u64)
        ensures
            *final(self) == (BybitWsGateway {
                rate_limit_tokens: if old(self).rate_limit_tokens < 10 {
                    (old(self).rate_limit_tokens + 1) as u32
                } else {
                    old(self).rate_limit_tokens
                },
                last_request_ns: now,
                ..*old(self)
            }),
    {
        if self.rate_limit_tokens < 10 {
            self.rate_limit_tokens = self.rate_limit_tokens + 1;
        }
        self.last_request_ns = now;
    }

    /// Looks at an incoming message: nothing for an answer to a ping or a
    /// subscription, else the text of a topic message.
    pub fn parse_message(&self, data: &[u8]) -> (r: Result<Option<String>, BybitMessageError>)
        ensures
            match text_of(data@) {
                None => r is Err,
                Some(text) => r is Ok && (r->Ok_0 is None <==> is_control(text))
                    && (r->Ok_0 is Some ==> r->Ok_0->0@ == text),
            },
    {
        match to_text(data) {
            None => Err(BybitMessageError::InvalidUtf8),
            Some(text) => {
                if contains(text, "\"op\":\"ping\"") || contains(text, "\"op\":\"pong\"") {
                    return Ok(None);
                }
                if contains(text, "\"op\":\"subscribe\"") {
                    return Ok(None);
                }
                Ok(Some(text.to_owned()))
            },
        }
    }

    /// The book in the format that all exchanges share. What is not a number
    /// counts as zero.
    pub fn convert_orderbook(&self, snapshot: &OrderbookSnapshot) -> (r: UnifiedOrderbook)
        ensures
            is_book(*snapshot, r),
    {
        UnifiedOrderbook {
            symbol: snapshot.s.clone(),
            bids: read_levels(&snapshot.b),
            asks: read_levels(&snapshot.a),
            update_id: snapshot.u,
            sequence: snapshot.seq,
        }
    }

    /// The delay before the next reconnection, in milliseconds.
    pub fn get_reconnect_delay(&self) -> (ms: u64)
        ensures
            ms == self.reconnect_delay_ms,
    {
        self.reconnect_delay_ms
    }

    /// Doubles the delay before a reconnection, up to its limit.
    pub fn increase_reconnect_delay(&mut self)
        ensures
            *final(self) == (BybitWsGateway {
                reconnect_delay_ms: next_delay(old(self).reconnect_delay_ms),
                ..*old(self)
            }),
    {
        self.reconnect_delay_ms =
        if self.reconnect_delay_ms < MAX_RECONNECT_DELAY_MS / 2 {
            self.reconnect_delay_ms * 2
        } else {
            MAX_RECONNECT_DELAY_MS
        };
    }

    /// Sets the delay before a reconnection back to a second.
    pub fn reset_reconnect_delay(&mut self)
        ensures
            *final(self) == (BybitWsGateway { reconnect_delay_ms: 1000, ..*old(self) }),
    {
        self.reconnect_delay_ms = 1000;
    }
}

} // verus!
