use trading_core::base::amount::Amount;
use trading_core::ingestion::binance_ws_client::{
    BinanceTrade, BinanceWsClient, BinanceWsConfig, ConnectAction, MessageRoute, StreamType,
};
use trading_core::ingestion::ingestor_main::{IngestorConfig, MarketDataIngestor};
use trading_core::ingestion::orderbook_reconstructor::{OrderBook, OrderBookReconstructor};

fn amt(x: f64) -> Amount {
    Amount { units: (x * 1e8).round() as i64 }
}

#[test]
fn test_build_ws_url_single_stream() {
    let mut config = BinanceWsConfig::default();
    config.symbol = "BTCUSDT".to_string();
    config.streams = vec![StreamType::Trade];
    config.is_testnet = false;
    let client = BinanceWsClient::new(config);
    let url = client.build_ws_url();
    assert!(url.contains("btcusdt@trade"));
}

#[test]
fn test_build_ws_url_multi_stream() {
    let mut config = BinanceWsConfig::default();
    config.symbol = "ETHUSDT".to_string();
    config.streams = vec![StreamType::Trade, StreamType::OrderBookDepth(20)];
    config.is_testnet = true;
    let client = BinanceWsClient::new(config);
    let url = client.build_ws_url();
    assert!(url.contains("testnet"));
    assert!(url.contains("stream?streams="));
}

#[test]
fn delays_stay_within_their_limit() {
    let mut client = BinanceWsClient::new(BinanceWsConfig::default());
    let most = client.config.reconnect_max_delay_ms;
    let mut waits = 0;
    loop {
        match client.connect_failed() {
            ConnectAction::Wait { delay_ms } => {
                waits += 1;
                assert!(delay_ms <= most + most / 2);
            },
            ConnectAction::GiveUp => break,
        }
        if waits > 1000 {
            break;
        }
    }
    assert!(waits > 0);
    client.connected();
    assert_eq!(client.attempt, 0);
}

#[test]
fn messages_are_routed_by_their_kind() {
    let trade = BinanceTrade {
        event_type: "trade".to_string(),
        event_time: 1,
        symbol: "BTCUSDT".to_string(),
        trade_id: 2,
        price: "100".to_string(),
        quantity: "1".to_string(),
        buyer_order_id: 3,
        seller_order_id: 4,
        trade_time: 5,
        is_buyer_maker: true,
    };
    let record = BinanceWsClient::on_trade_received(&trade);
    assert_eq!(record.timestamp_ns, 5_000_000);
    assert_eq!(record.price, amt(100.0));
    assert_eq!(BinanceWsClient::route_message(&Some(trade), &None), MessageRoute::Trade);
    assert_eq!(BinanceWsClient::route_message(&None, &None), MessageRoute::Unknown);
}

#[test]
fn test_ingestor_config_default() {
    let config = IngestorConfig::default();
    assert!(config.is_testnet);
    assert_eq!(config.symbols.len(), 2);
    assert!(config.subscribe_trades);
}

#[test]
fn test_ingestor_creation() {
    let config = IngestorConfig::default();
    let ingestor = MarketDataIngestor::new(config);
    assert_eq!(ingestor.config.symbols.len(), 2);
    assert_eq!(ingestor.client_configs().len(), 2);
    assert!(ingestor.streams().len() >= 1);
}

#[test]
fn test_order_book_snapshot() {
    let mut book = OrderBook::new("BTCUSDT".to_string());
    let bids = vec![(amt(50000.0), amt(1.5)), (amt(49999.0), amt(2.0))];
    let asks = vec![(amt(50001.0), amt(1.0)), (amt(50002.0), amt(3.0))];
    book.apply_snapshot(&bids, &asks, 100);
    assert!(book.is_snapshot_received);
    assert_eq!(book.last_update_id, 100);
    assert_eq!(book.bids.len(), 2);
    assert_eq!(book.asks.len(), 2);
    assert_eq!(book.best_bid(), Some(amt(50000.0)));
    assert_eq!(book.best_ask(), Some(amt(50001.0)));
    assert_eq!(book.spread(), Some(100_000_000));
}

#[test]
fn test_order_book_update() {
    let mut reconstructor = OrderBookReconstructor::new();
    let bids = vec![("50000".to_string(), "1.5".to_string())];
    let asks = vec![("50001".to_string(), "1.0".to_string())];
    reconstructor.process_snapshot("BTCUSDT", &bids, &asks, 100).unwrap();
    let update_bids = vec![("50000".to_string(), "2.0".to_string())];
    let update_asks: Vec<(String, String)> = vec![];
    let result = reconstructor.process_update(
        "BTCUSDT",
        101,
        101,
        100,
        &update_bids,
        &update_asks,
    );
    assert!(result.is_ok());
    assert!(result.unwrap());
    let book = reconstructor.book("BTCUSDT").unwrap();
    assert_eq!(book.best_bid(), Some(amt(50000.0)));
    assert_eq!(book.bids[0].quantity, amt(2.0));
}

#[test]
fn test_sequence_validation() {
    let mut book = OrderBook::new("ETHUSDT".to_string());
    book.apply_snapshot(&[(amt(3000.0), amt(10.0))], &[(amt(3001.0), amt(10.0))], 100);
    assert!(book.validate_sequence(101, 101));
    assert!(!book.validate_sequence(100, 100));
    assert!(!book.validate_sequence(103, 103));
}

#[test]
fn an_empty_level_disappears() {
    let mut book = OrderBook::new("ETHUSDT".to_string());
    book.apply_snapshot(
        &[(amt(10.0), amt(1.0)), (amt(9.0), amt(1.0))],
        &[(amt(11.0), amt(1.0))],
        1,
    );
    book.apply_update(&[(amt(10.0), amt(0.0)), (amt(9.5), amt(2.0))], &[], 2);
    assert_eq!(book.best_bid(), Some(amt(9.5)));
    assert_eq!(book.bids.len(), 2);
    assert_eq!(book.last_update_id, 2);
}

#[test]
fn levels_that_are_no_numbers_are_left_out() {
    let mut reconstructor = OrderBookReconstructor::new();
    let bids = vec![
        ("1.5e2".to_string(), "3".to_string()),
        ("149".to_string(), "many".to_string()),
        ("".to_string(), "1".to_string()),
        (".5".to_string(), "2.".to_string()),
    ];
    reconstructor.process_snapshot("X", &bids, &[], 1).unwrap();
    let book = reconstructor.book("X").unwrap();
    assert_eq!(book.bids.len(), 2);
    assert_eq!(book.bids[0].price, amt(150.0));
    assert_eq!(book.bids[1].price, amt(0.5));
    assert_eq!(book.bids[1].quantity, amt(2.0));
}

#[test]
fn silent_connections_become_stale() {
    assert!(!BinanceWsClient::is_stale(60_000));
    assert!(BinanceWsClient::is_stale(60_001));
}

#[test]
fn attempts_run_out_whatever_the_delay() {
    let mut config = BinanceWsConfig::default();
    config.reconnect_base_delay_ms = 1;
    config.max_reconnect_attempts = 1;
    let mut client = BinanceWsClient::new(config);
    assert_eq!(client.connect_failed(), ConnectAction::GiveUp);
    assert_eq!(client.attempt, 1);
    assert_eq!(client.delay_ms, 1);
}

#[test]
fn an_ingestor_counts_from_zero_and_keeps_its_counters() {
    let mut ingestor = MarketDataIngestor::new(IngestorConfig::default());
    assert_eq!(ingestor.reconstructor.get_stats(), (0, 0, 0));
    ingestor.reconstructor.stats_update_count = 5;
    ingestor.reconstructor.stats_gap_count = 2;
    assert_eq!(ingestor.finish(), (5, 0, 2));
    assert_eq!(ingestor.reconstructor.get_stats(), (5, 0, 2));
    assert!(!ingestor.reconstructor.is_running);
}
