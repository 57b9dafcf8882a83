//! What is asked of an exchange, and what its messages become.

use vstd::prelude::*;
use crate::base::decimals::amount_or_zero;
use crate::ingestion::binance_ws_client::{
    base_url, first_levels, next_delay, route_of, stream_names, ws_url, BinanceOrderBookUpdate,
    BinanceTrade, MessageRoute, StreamType,
};
use crate::ingestion::ingestor_main::IngestorConfig;

verus! {

/// Every kind of stream is asked for by its own name.
pub proof fn law_stream_names_by_kind(d: u8)
    ensures
        StreamType::Trade.name() == "trade"@,
        StreamType::Kline.name() == "kline_1s"@,
        StreamType::Ticker.name() == "ticker"@,
        StreamType::Liquidation.name() == "forceOrder"@,
        StreamType::OrderBookDepth(5).name() == "depth5"@,
        StreamType::OrderBookDepth(10).name() == "depth10"@,
        StreamType::OrderBookDepth(20).name() == "depth20"@,
        d != 5 && d != 10 && d != 20 ==> StreamType::OrderBookDepth(d).name() == "depth@100ms"@,
{
}

/// Streams are asked for at the test network or the real one; one stream in the
/// path, several in the query, each by the symbol in small letters and its name.
pub proof fn law_stream_urls(testnet: bool, symbol: Seq<char>, streams: Seq<StreamType>, i: int)
    requires
        0 <= i < streams.len(),
    ensures
        base_url(true) == "wss://testnet.binancefuture.com/ws"@,
        base_url(false) == "wss://fstream.binance.com/ws"@,
        stream_names(symbol, streams).len() == streams.len(),
        stream_names(symbol, streams)[i] == crate::base::text::lowercase_text(symbol) + "@"@
            + streams[i].name(),
        streams.len() == 1 ==> ws_url(testnet, symbol, streams) == base_url(testnet) + "/"@
            + stream_names(symbol, streams)[0],
        streams.len() != 1 ==> ws_url(testnet, symbol, streams) == base_url(testnet)
            + "/stream?streams="@ + crate::base::text::joined(
            stream_names(symbol, streams),
            "/"@,
        ),
{
}

/// A trade goes to the trades and an update of the book to the books, as each
/// says what it is; everything else is unknown.
pub proof fn law_messages_routed(
    trade: Option<BinanceTrade>,
    update: Option<BinanceOrderBookUpdate>,
)
    ensures
        ({
            let t = trade is Some && trade->0.event_type@ == "trade"@;
            let u = update is Some && update->0.event_type@ == "depthUpdate"@;
            &&& route_of(trade, update) == MessageRoute::Trade <==> t
            &&& route_of(trade, update) == MessageRoute::OrderBook <==> !t && u
            &&& route_of(trade, update) == MessageRoute::Unknown <==> !t && !u
        }),
{
}

/// A level is its price and then its quantity; the first twenty-five are kept.
pub proof fn law_levels_kept(s: Seq<(String, String)>, i: int)
    requires
        0 <= i < s.len(),
        i < 25,
    ensures
        s.len() <= 25 ==> first_levels(s).len() == s.len(),
        s.len() > 25 ==> first_levels(s).len() == 25,
        first_levels(s)[i].0 == amount_or_zero(s[i].0@),
        first_levels(s)[i].1 == amount_or_zero(s[i].1@),
{
}

/// The wait doubles, up to the longest.
pub proof fn law_wait_doubles(delay: u64, longest: u64)
    ensures
        2 * delay <= longest ==> next_delay(delay, longest) == 2 * delay,
        2 * delay >= longest ==> next_delay(delay, longest) == longest,
{
}

/// The book is always wanted, trades and candles where they are asked for.
pub proof fn law_wanted_streams(c: IngestorConfig)
    ensures
        c.wanted_streams().len() > 0,
        c.wanted_streams()[0] == StreamType::OrderBookDepth(c.order_book_depth),
        c.wanted_streams().contains(StreamType::Trade) <==> c.subscribe_trades,
        c.wanted_streams().contains(StreamType::Kline) <==> c.subscribe_klines,
        c.wanted_streams().len() == 1 + (if c.subscribe_trades {
            1int
        } else {
            0
        }) + (if c.subscribe_klines {
            1int
        } else {
            0
        }),
{
    let book = seq![StreamType::OrderBookDepth(c.order_book_depth)];
    let t = c.wanted_streams();
    if c.subscribe_trades {
        assert(t[1] == StreamType::Trade);
    }
    if c.subscribe_klines {
        assert(t[t.len() - 1] == StreamType::Kline);
    }
}

} // verus!
