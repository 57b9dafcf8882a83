//! The ingestor: which clients it runs, and with which streams.

use vstd::prelude::*;
use crate::base::text::views;
use crate::ingestion::binance_ws_client::{BinanceWsConfig, StreamType};
use crate::ingestion::orderbook_reconstructor::{OrderBook, OrderBookReconstructor};

verus! {

/// Settings of the ingestor.
#[derive(Debug, Clone)]
pub struct IngestorConfig {
    pub symbols: Vec<String>,
    pub is_testnet: bool,
    pub order_book_depth: u8,
    pub subscribe_trades: bool,
    pub subscribe_klines: bool,
}

impl Default for IngestorConfig {
    fn default() -> (c: Self)
        ensures
            views(c.symbols@) == seq!["BTCUSDT"@, "ETHUSDT"@],
            c.is_testnet,
            c.order_book_depth == 20,
            c.subscribe_trades,
            !c.subscribe_klines,
    {
        let mut symbols: Vec<String> = Vec::new();
        symbols.push("BTCUSDT".to_owned());
        symbols.push("ETHUSDT".to_owned());
        assert(views(symbols@) =~= seq!["BTCUSDT"@, "ETHUSDT"@]);
        IngestorConfig {
            symbols,
            is_testnet: true,
            order_book_depth: 20,
            subscribe_trades: true,
            subscribe_klines: false,
        }
    }
}

impl IngestorConfig {
    /// The streams of every symbol: the order book, then trades and klines
    /// where they are wanted.
    pub open spec fn wanted_streams(&self) -> Seq<StreamType> {
        let book = seq![StreamType::OrderBookDepth(self.order_book_depth)];
        let trades = if self.subscribe_trades {
            book.push(StreamType::Trade)
        } else {
            book
        };
        if self.subscribe_klines {
            trades.push(StreamType::Kline)
        } else {
            trades
        }
    }
}

/// Coordinates the clients of all symbols.
pub struct MarketDataIngestor {
    pub config: IngestorConfig,
    pub reconstructor: OrderBookReconstructor,
}

impl MarketDataIngestor {
    /// An ingestor without books.
    pub fn new(config: IngestorConfig) -> (i: Self)
        ensures
            i.config == config,
            i.reconstructor.wf(),
            i.reconstructor.books@ == Map::<Seq<char>, OrderBook>::empty(),
            i.reconstructor.is_running,
            i.reconstructor.stats_update_count == 0,
            i.reconstructor.stats_stale_count == 0,
            i.reconstructor.stats_gap_count == 0,
    {
        MarketDataIngestor { config, reconstructor: OrderBookReconstructor::new() }
    }

    /// The streams of every symbol.
    pub fn streams(&self) -> (r: Vec<StreamType>)
        ensures
            r@ == self.config.wanted_streams(),
    {
        let mut streams: Vec<StreamType> = Vec::new();
        streams.push(StreamType::OrderBookDepth(self.config.order_book_depth));
        if self.config.subscribe_trades {
            streams.push(StreamType::Trade);
        }
        if self.config.subscribe_klines {
            streams.push(StreamType::Kline);
        }
        assert(streams@ =~= self.config.wanted_streams());
        streams
    }

    /// The settings of the clients to run: one for each symbol.
    pub fn client_configs(&self) -> (r: Vec<BinanceWsConfig>)
        ensures
            r@.len() == self.config.symbols@.len(),
            forall|i: int|
                0 <= i < r@.len() ==> (#[trigger] r@[i]).symbol@ == self.config.symbols@[i]@
                    && r@[i].streams@ == self.config.wanted_streams() && r@[i].is_testnet
                    == self.config.is_testnet && r@[i].reconnect_base_delay_ms == 1000
                    && r@[i].reconnect_max_delay_ms == 30000 && r@[i].max_reconnect_attempts
                    == 10,
    {
        let mut out: Vec<BinanceWsConfig> = Vec::new();
        let mut i: usize = 0;
        while i < self.config.symbols.len()
            invariant
                i <= self.config.symbols@.len(),
                out@.len() == i,
                forall|k: int|
                    0 <= k < i ==> (#[trigger] out@[k]).symbol@ == self.config.symbols@[k]@
                        && out@[k].streams@ == self.config.wanted_streams() && out@[k].is_testnet
                        == self.config.is_testnet && out@[k].reconnect_base_delay_ms == 1000
                        && out@[k].reconnect_max_delay_ms == 30000
                        && out@[k].max_reconnect_attempts == 10,
            decreases self.config.symbols@.len() - i,
        {
            let mut c = BinanceWsConfig::default();
            c.symbol = self.config.symbols[i].clone();
            c.streams = self.streams();
            c.is_testnet = self.config.is_testnet;
            out.push(c);
            i += 1;
        }
        out
    }

    /// Ends the reconstruction, and tells its counters.
    pub fn finish(&mut self) -> (r: (u64, u64, u64))
        ensures
            final(self).config == old(self).config,
            final(self).reconstructor == (OrderBookReconstructor {
                is_running: false,
                ..old(self).reconstructor
            }),
            r == (
                old(self).reconstructor.stats_update_count,
                old(self).reconstructor.stats_stale_count,
                old(self).reconstructor.stats_gap_count,
            ),
    {
        self.reconstructor.shutdown();
        self.reconstructor.get_stats()
    }
}

} // verus!
