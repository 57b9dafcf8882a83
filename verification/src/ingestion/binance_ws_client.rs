//! The Binance WebSocket client: streams, addresses, reconnection and what
//! becomes of messages.

use vstd::arithmetic::power2::{lemma2_to64, lemma_pow2_unfold, pow2};
use vstd::prelude::*;
use crate::base::amount::Amount;
use crate::base::decimals::{amount_or_zero, parse_or_zero};
use crate::base::numbers::smaller;
use crate::base::text::{join, joined, lowercase, lowercase_text, same, views};

verus! {

/// A stream of market data.
#[derive(Debug, Clone, Copy, PartialEq, Eq, Structural)]
pub enum StreamType {
    Trade,
    /// With so many levels.
    OrderBookDepth(u8),
    Kline,
    Ticker,
    Liquidation,
}

impl StreamType {
    /// The name of a stream.
    pub open spec fn name(self) -> Seq<char> {
        match self {
            StreamType::Trade => "trade"@,
            StreamType::OrderBookDepth(d) => if d == 5 {
                "depth5"@
            } else if d == 10 {
                "depth10"@
            } else if d == 20 {
                "depth20"@
            } else {
                "depth@100ms"@
            },
            StreamType::Kline => "kline_1s"@,
            StreamType::Ticker => "ticker"@,
            StreamType::Liquidation => "forceOrder"@,
        }
    }

    /// The name of this stream.
    pub fn as_str(&self) -> (s: &'static str)
        ensures
            s@ == self.name(),
    {
        match self {
            StreamType::Trade => "trade",
            StreamType::OrderBookDepth(d) => match *d {
                5 => "depth5",
                10 => "depth10",
                20 => "depth20",
                _ => "depth@100ms",
            },
            StreamType::Kline => "kline_1s",
            StreamType::Ticker => "ticker",
            StreamType::Liquidation => "forceOrder",
        }
    }
}

/// A trade as the exchange reports it.
#[derive(Debug, Clone)]
pub struct BinanceTrade {
    pub event_type: String,
    pub event_time: i64,
    pub symbol: String,
    pub trade_id: i64,
    pub price: String,
    pub quantity: String,
    pub buyer_order_id: i64,
    pub seller_order_id: i64,
    pub trade_time: i64,
    pub is_buyer_maker: bool,
}

/// A change of an order book as the exchange reports it.
#[derive(Debug, Clone)]
pub struct BinanceOrderBookUpdate {
    pub event_type: String,
    pub event_time: i64,
    pub symbol: String,
    pub first_update_id: i64,
    pub last_update_id: i64,
    pub prev_last_update_id: i64,
    pub bids: Vec<(String, String)>,
    pub asks: Vec<(String, String)>,
}

/// Settings of the client.
#[derive(Debug, Clone)]
pub struct BinanceWsConfig {
    pub symbol: String,
    pub streams: Vec<StreamType>,
    pub is_testnet: bool,
    pub reconnect_base_delay_ms: u64,
    pub reconnect_max_delay_ms: u64,
    pub max_reconnect_attempts: u32,
}

impl Default for BinanceWsConfig {
    fn default() -> (c: Self)
        ensures
            c.symbol@ == "BTCUSDT"@,
            c.streams@ == seq![StreamType::Trade, StreamType::OrderBookDepth(20)],
            !c.is_testnet,
            c.reconnect_base_delay_ms == 1000,
            c.reconnect_max_delay_ms == 30000,
            c.max_reconnect_attempts == 10,
    {
        let mut streams: Vec<StreamType> = Vec::new();
        streams.push(StreamType::Trade);
        streams.push(StreamType::OrderBookDepth(20));
        assert(streams@ =~= seq![StreamType::Trade, StreamType::OrderBookDepth(20)]);
        BinanceWsConfig {
            symbol: "BTCUSDT".to_owned(),
            streams,
            is_testnet: false,
            reconnect_base_delay_ms: 1000,
            reconnect_max_delay_ms: 30000,
            max_reconnect_attempts: 10,
        }
    }
}

/// Where the exchange listens.
pub open spec fn base_url(testnet: bool) -> Seq<char> {
    if testnet {
        "wss://testnet.binancefuture.com/ws"@
    } else {
        "wss://fstream.binance.com/ws"@
    }
}

/// The names of a symbol's streams.
pub open spec fn stream_names(symbol: Seq<char>, streams: Seq<StreamType>) -> Seq<Seq<char>> {
    Seq::new(
        streams.len(),
        |i: int| lowercase_text(symbol) + "@"@ + streams[i].name(),
    )
}

/// The address of a single stream, or of several at once.
pub open spec fn ws_url(testnet: bool, symbol: Seq<char>, streams: Seq<StreamType>) -> Seq<char> {
    let names = stream_names(symbol, streams);
    if names.len() == 1 {
        base_url(testnet) + "/"@ + names[0]
    } else {
        base_url(testnet) + "/stream?streams="@ + joined(names, "/"@)
    }
}

/// A random number of `rand::random`. Nothing is claimed of its value.
#[verifier::external_body]
pub(crate) fn random_u64() -> (n: u64)
{
    rand::random::<u64>()
}

/// What to do after a connection could not be made.
#[derive(Debug, Clone, Copy, PartialEq, Eq, Structural)]
pub enum ConnectAction {
    /// Wait so many milliseconds and try again.
    Wait { delay_ms: u64 },
    /// The attempts are used up.
    GiveUp,
}

/// Where a message goes.
#[derive(Debug, Clone, Copy, PartialEq, Eq, Structural)]
pub enum MessageRoute {
    Trade,
    OrderBook,
    Unknown,
}

/// A trade for the event bus.
#[derive(Debug, Clone)]
pub struct TradeRecord {
    pub symbol: String,
    pub price: Amount,
    pub quantity: Amount,
    pub timestamp_ns: i64,
    pub is_buyer_maker: bool,
}

/// A change of an order book for the event bus, with the best levels only.
#[derive(Debug, Clone)]
pub struct OrderBookRecord {
    pub symbol: String,
    pub last_update_id: i64,
    pub prev_last_update_id: i64,
    pub bids: Vec<(Amount, Amount)>,
    pub asks: Vec<(Amount, Amount)>,
    pub timestamp_ns: i64,
}

/// How many levels of a change are passed on.
pub const RECORD_DEPTH: usize = 25;

/// How long a connection may be silent before it is looked at.
pub const HEARTBEAT_INTERVAL_MS: u64 = 30_000;

/// The price and the quantity of the first levels of a side.
pub open spec fn first_levels(s: Seq<(String, String)>) -> Seq<(Amount, Amount)> {
    Seq::new(
        if s.len() < RECORD_DEPTH {
            s.len()
        } else {
            RECORD_DEPTH as nat
        },
        |i: int| (amount_or_zero(s[i].0@), amount_or_zero(s[i].1@)),
    )
}

fn take_levels(v: &Vec<(String, String)>) -> (out: Vec<(Amount, Amount)>)
    ensures
        out@ == first_levels(v@),
{
    let mut out: Vec<(Amount, Amount)> = Vec::new();
    let mut i: usize = 0;
    while i < v.len() && i < RECORD_DEPTH
        invariant
            i <= v@.len(),
            i <= RECORD_DEPTH,
            out@ == first_levels(v@).take(i as int),
        decreases v@.len() - i,
    {
        out.push((parse_or_zero(v[i].0.as_str()), parse_or_zero(v[i].1.as_str())));
        i += 1;
        assert(out@ =~= first_levels(v@).take(i as int));
    }
    assert(out@ =~= first_levels(v@));
    out
}

/// Where a message goes, as its type says.
pub open spec fn route_of(
    trade: Option<BinanceTrade>,
    update: Option<BinanceOrderBookUpdate>,
) -> MessageRoute {
    if trade is Some && trade->0.event_type@ == "trade"@ {
        MessageRoute::Trade
    } else if update is Some && update->0.event_type@ == "depthUpdate"@ {
        MessageRoute::OrderBook
    } else {
        MessageRoute::Unknown
    }
}

/// The delay after the next failure: twice as long, up to a limit.
pub open spec fn next_delay(delay_ms: u64, max_ms: u64) -> int {
    if delay_ms * 2 < max_ms {
        delay_ms * 2
    } else {
        max_ms as int
    }
}

/// The delay after `n` failures in a row.
pub open spec fn delay_after(base_ms: u64, max_ms: u64, n: nat) -> int
    decreases n,
{
    if n == 0 {
        base_ms as int
    } else {
        next_delay(delay_after(base_ms, max_ms, (n - 1) as nat) as u64, max_ms)
    }
}

/// Failures in a row double the delay each time, until it reaches its limit and
/// stays there.
pub proof fn law_delay_doubles_up_to_limit(base_ms: u64, max_ms: u64, n: nat)
    requires
        0 < base_ms <= max_ms,
    ensures
        delay_after(base_ms, max_ms, n) == smaller(base_ms * pow2(n), max_ms as int),
    decreases n,
{
    if n == 0 {
        lemma2_to64();
        assert(base_ms * 1 == base_ms);
    } else {
        let k = (n - 1) as nat;
        law_delay_doubles_up_to_limit(base_ms, max_ms, k);
        lemma_pow2_unfold(n);
        let b = base_ms as int;
        let p = pow2(k) as int;
        assert(b * (2 * p) == 2 * (b * p)) by (nonlinear_arith);
    }
}

/// Keeps a connection to the exchange.
pub struct BinanceWsClient {
    pub config: BinanceWsConfig,
    /// Failed attempts since the last connection.
    pub attempt: u32,
    /// The next delay without jitter, in milliseconds.
    pub delay_ms: u64,
}

impl BinanceWsClient {
    /// A client that has not connected.
    pub fn new(config: BinanceWsConfig) -> (c: Self)
        ensures
            c.config == config,
            c.attempt == 0,
            c.delay_ms == config.reconnect_base_delay_ms,
    {
        let delay_ms: u64 = config.reconnect_base_delay_ms;
        BinanceWsClient { config, attempt: 0, delay_ms }
    }

    /// The address to connect to.
    pub fn build_ws_url(&self) -> (r: String)
        ensures
            r@ == ws_url(self.config.is_testnet, self.config.symbol@, self.config.streams@),
    {
        let mut url = if self.config.is_testnet {
            "wss://testnet.binancefuture.com/ws".to_owned()
        } else {
            "wss://fstream.binance.com/ws".to_owned()
        };
        let ghost names = stream_names(self.config.symbol@, self.config.streams@);
        let symbol = lowercase(self.config.symbol.as_str());
        let mut parts: Vec<String> = Vec::new();
        let mut i: usize = 0;
        while i < self.config.streams.len()
            invariant
                i <= self.config.streams@.len(),
                symbol@ == lowercase_text(self.config.symbol@),
                names == stream_names(self.config.symbol@, self.config.streams@),
                parts@.len() == i,
                forall|k: int| 0 <= k < i ==> (#[trigger] parts@[k])@ == names[k],
            decreases self.config.streams@.len() - i,
        {
            let mut name = symbol.clone();
            name.push_str("@");
            name.push_str(self.config.streams[i].as_str());
            parts.push(name);
            i += 1;
        }
        assert(views(parts@) =~= names);
        if parts.len() == 1 {
            url.push_str("/");
            url.push_str(parts[0].as_str());
        } else {
            url.push_str("/stream?streams=");
            url.push_str(join(&parts, "/").as_str());
        }
        url
    }

    /// Takes note of a connection: attempts and delay start anew.
    pub fn connected(&mut self)
        ensures
            *final(self) == (BinanceWsClient {
                attempt: 0,
                delay_ms: old(self).config.reconnect_base_delay_ms,
                ..*old(self)
            }),
    {
        self.attempt = 0;
        self.delay_ms = self.config.reconnect_base_delay_ms;
    }

    /// Takes note of a failed attempt, with a random number for the jitter:
    /// gives up after so many, else doubles the delay up to its limit.
    pub fn connect_failed_with(&mut self, random: u64) -> (a: ConnectAction)
        requires
            old(self).attempt < u32::MAX,
            old(self).attempt + 1 < old(self).config.max_reconnect_attempts ==> 4 <= old(
                self,
            ).delay_ms <= u64::MAX / 2,
        ensures
            old(self).attempt + 1 >= old(self).config.max_reconnect_attempts ==> a
                == ConnectAction::GiveUp && final(self).delay_ms == old(self).delay_ms,
            old(self).attempt + 1 < old(self).config.max_reconnect_attempts ==> a == (
            ConnectAction::Wait {
                delay_ms: (old(self).delay_ms + random % (old(self).delay_ms / 4)) as u64,
            }) && final(self).delay_ms == next_delay(
                old(self).delay_ms,
                old(self).config.reconnect_max_delay_ms,
            ),
            final(self).attempt == old(self).attempt + 1,
            final(self).config == old(self).config,
    {
        self.attempt = self.attempt + 1;
        if self.attempt >= self.config.max_reconnect_attempts {
            return ConnectAction::GiveUp;
        }
        let quarter: u64 = self.delay_ms / 4;
        let jitter: u64 = random % quarter;
        let delay_ms: u64 = self.delay_ms + jitter;
        let doubled: u64 = self.delay_ms * 2;
        self.delay_ms =
        if doubled < self.config.reconnect_max_delay_ms {
            doubled
        } else {
            self.config.reconnect_max_delay_ms
        };
        ConnectAction::Wait { delay_ms }
    }

    /// Takes note of a failed attempt.
    pub fn connect_failed(&mut self) -> (a: ConnectAction)
        requires
            old(self).attempt < u32::MAX,
            old(self).attempt + 1 < old(self).config.max_reconnect_attempts ==> 4 <= old(
                self,
            ).delay_ms <= u64::MAX / 2,
        ensures
            a == ConnectAction::GiveUp <==> old(self).attempt + 1
                >= old(self).config.max_reconnect_attempts,
            a matches ConnectAction::Wait { delay_ms } ==> old(self).delay_ms <= delay_ms < old(
                self,
            ).delay_ms + old(self).delay_ms / 4,
            final(self).attempt == old(self).attempt + 1,
            final(self).config == old(self).config,
            final(self).delay_ms == (if a == ConnectAction::GiveUp {
                old(self).delay_ms as int
            } else {
                next_delay(old(self).delay_ms, old(self).config.reconnect_max_delay_ms)
            }),
    {
        self.connect_failed_with(random_u64())
    }

    /// Where a message goes, given what it could be read as.
    pub fn route_message(
        trade: &Option<BinanceTrade>,
        update: &Option<BinanceOrderBookUpdate>,
    ) -> (r: MessageRoute)
        ensures
            r == route_of(*trade, *update),
    {
        if let Some(t) = trade {
            if same(t.event_type.as_str(), "trade") {
                return MessageRoute::Trade;
            }
        }
        if let Some(u) = update {
            if same(u.event_type.as_str(), "depthUpdate") {
                return MessageRoute::OrderBook;
            }
        }
        MessageRoute::Unknown
    }

    /// Whether a connection that has been silent so long is to be closed: after
    /// two intervals.
    pub fn is_stale(silent_ms: u64) -> (r: bool)
        ensures
            r == (silent_ms > 2 * HEARTBEAT_INTERVAL_MS),
    {
        silent_ms > 2 * HEARTBEAT_INTERVAL_MS
    }

    /// The record of a trade. What is not a number counts as zero.
    pub fn on_trade_received(trade: &BinanceTrade) -> (r: TradeRecord)
        requires
            i64::MIN <= trade.trade_time * 1_000_000 <= i64::MAX,
        ensures
            r.symbol@ == trade.symbol@,
            r.price == amount_or_zero(trade.price@),
            r.quantity == amount_or_zero(trade.quantity@),
            r.timestamp_ns == trade.trade_time * 1_000_000,
            r.is_buyer_maker == trade.is_buyer_maker,
    {
        TradeRecord {
            symbol: trade.symbol.clone(),
            price: parse_or_zero(trade.price.as_str()),
            quantity: parse_or_zero(trade.quantity.as_str()),
            timestamp_ns: trade.trade_time * 1_000_000,
            is_buyer_maker: trade.is_buyer_maker,
        }
    }

    /// The record of a change of an order book. What is not a number counts as
    /// zero.
    pub fn on_order_book_update(update: &BinanceOrderBookUpdate) -> (r: OrderBookRecord)
        requires
            i64::MIN <= update.event_time * 1_000_000 <= i64::MAX,
        ensures
            r.symbol@ == update.symbol@,
            r.last_update_id == update.last_update_id,
            r.prev_last_update_id == update.prev_last_update_id,
            r.bids@ == first_levels(update.bids@),
            r.asks@ == first_levels(update.asks@),
            r.timestamp_ns == update.event_time * 1_000_000,
    {
        OrderBookRecord {
            symbol: update.symbol.clone(),
            last_update_id: update.last_update_id,
            prev_last_update_id: update.prev_last_update_id,
            bids: take_levels(&update.bids),
            asks: take_levels(&update.asks),
            timestamp_ns: update.event_time * 1_000_000,
        }
    }
}

} // verus!
