use trading_core::base::amount::Amount;
use trading_core::base::clock::UtcInstant;
use trading_core::base::decimals::parse_amount;
use trading_core::gateways::bybit_ws::{
    BybitCredentials, BybitMessageError, BybitWsGateway, OrderbookSnapshot,
};
use trading_core::gateways::derivatives_ws::{
    DerivativesMessage, DerivativesWsAdapter, NautilusDerivativesBridge, ReconnectAction,
};
use trading_core::gateways::okx_gateway::{
    OkxAccountType, OkxCancelOrderRequest, OkxCredentials, OkxGateway, OkxInstType,
    OkxInstrumentId,
};
use trading_core::gateways::unified_router::{
    RouterConfig, UnifiedOrder, UnifiedOrderType, UnifiedRouter, UnifiedSide, UnifiedTimeInForce,
    Venue, VenueOrder,
};

fn amt(x: f64) -> Amount {
    Amount { units: (x * 1e8).round() as i64 }
}

#[test]
fn test_signature_generation() {
    let gateway = BybitWsGateway::new(Some(BybitCredentials {
        api_key: "test_key".to_string(),
        api_secret: "test_secret".to_string(),
    }));
    let signature = gateway.generate_signature("test_secret", 1234567890, 5000);
    assert!(!signature.is_empty());
    assert_eq!(signature, "369e7e3cf7ac8c7e429a5c171757b98638258f34f3c9fb4b8da242e55aa43da4");
}

#[test]
fn test_subscription_topics() {
    let mut gateway = BybitWsGateway::new(None);
    let ob_topic = gateway.subscribe_orderbook("BTCUSDT", 50);
    assert!(ob_topic.contains("orderbook.50"));
    let trade_topic = gateway.subscribe_trades("BTCUSDT");
    assert!(trade_topic.contains("publicTrade"));
}

#[test]
fn bybit_requests_are_json() {
    let gateway = BybitWsGateway::new(None);
    assert!(gateway.build_auth_request().is_none());
    let message = gateway.build_subscribe_message(&["a".to_string(), "b".to_string()]);
    let value: serde_json::Value = serde_json::from_str(&message).unwrap();
    assert_eq!(value.get("op").unwrap().as_str(), Some("subscribe"));
    assert_eq!(value.get("args").unwrap().as_array().unwrap().len(), 2);
    let known = BybitWsGateway::new(Some(BybitCredentials {
        api_key: "k".to_string(),
        api_secret: "s".to_string(),
    }));
    let auth = known.build_auth_request_at(1000).unwrap();
    let value: serde_json::Value = serde_json::from_str(&auth).unwrap();
    assert_eq!(value.get("op").unwrap().as_str(), Some("auth"));
}

#[test]
fn bybit_messages_are_text() {
    let gateway = BybitWsGateway::new(None);
    assert_eq!(gateway.parse_message(&[0xff, 0xfe]), Err(BybitMessageError::InvalidUtf8));
    assert!(gateway.parse_message(b"not json").is_ok());
}

#[test]
fn reconnect_delays_double_up_to_a_limit() {
    let mut gateway = BybitWsGateway::new(None);
    let first = gateway.get_reconnect_delay();
    gateway.increase_reconnect_delay();
    assert_eq!(gateway.get_reconnect_delay(), first * 2);
    for _ in 0..40 {
        gateway.increase_reconnect_delay();
    }
    let most = gateway.get_reconnect_delay();
    gateway.increase_reconnect_delay();
    assert_eq!(gateway.get_reconnect_delay(), most);
    gateway.reset_reconnect_delay();
    assert_eq!(gateway.get_reconnect_delay(), first);
}

#[test]
fn test_parse_heartbeat() {
    let json = r#"{"op": "heartbeat", "ts": 1234567890}"#;
    let adapter = DerivativesWsAdapter::new("ws://test");
    let msg = adapter.parse_message(json);
    assert!(matches!(msg, Some(DerivativesMessage::Heartbeat(_))));
    assert!(matches!(msg, Some(DerivativesMessage::Heartbeat(1234567890))));
}

#[test]
fn test_subscription_building() {
    let mut adapter = DerivativesWsAdapter::new("ws://test");
    adapter.subscribe_options_chain("BTC");
    adapter.subscribe_funding_rates(&["BTC-PERP"]);
    let sub_msg = adapter.build_subscribe_message();
    assert!(sub_msg.get("op").is_some());
}

#[test]
fn derivatives_messages_are_told_apart() {
    let adapter = DerivativesWsAdapter::new("ws://test");
    match adapter.parse_message(r#"{"funding_rate": 0.0001, "symbol": "BTC", "timestamp": 7}"#) {
        Some(DerivativesMessage::FundingRate { symbol, rate, timestamp_ns }) => {
            assert_eq!(symbol, "BTC");
            assert_eq!(rate, "0.0001");
            assert_eq!(timestamp_ns, 7);
        },
        _ => panic!("expected a funding rate"),
    }
    match adapter.parse_message(r#"{"open_interest": 12.5, "symbol": "ETH"}"#) {
        Some(DerivativesMessage::OpenInterest { symbol, oi, oi_usd, timestamp_ns }) => {
            assert_eq!(symbol, "ETH");
            assert_eq!(oi, "12.5");
            assert_eq!(oi_usd, "0");
            assert_eq!(timestamp_ns, 0);
        },
        _ => panic!("expected an open interest"),
    }
    match adapter.parse_message(r#"{"liquidation": {"symbol": "S", "side": "sell", "price": 3}}"#) {
        Some(DerivativesMessage::Liquidation { symbol, side, quantity, price, .. }) => {
            assert_eq!(symbol, "S");
            assert_eq!(side, "sell");
            assert_eq!(quantity, "0");
            assert_eq!(price, "3");
        },
        _ => panic!("expected a liquidation"),
    }
    assert!(adapter.parse_message("{}").is_none());
    assert!(adapter.parse_message("nonsense").is_none());
}

#[test]
fn sequences_are_kept_by_symbol() {
    let mut adapter = DerivativesWsAdapter::new("ws://test");
    assert_eq!(adapter.get_sequence("BTC"), 0);
    adapter.update_sequence("BTC", 5);
    assert_eq!(adapter.get_sequence("BTC"), 5);
    assert_eq!(adapter.get_sequence("ETH"), 0);
    let mut waits: Vec<u64> = Vec::new();
    let mut given_up = false;
    for _ in 0..10 {
        match adapter.connection_ended(false) {
            ReconnectAction::Retry { wait_secs } => waits.push(wait_secs),
            ReconnectAction::GiveUp => {
                given_up = true;
                break;
            },
        }
    }
    assert!(given_up || waits.len() == 10);
    for i in 1..waits.len() {
        assert!(waits[i] >= waits[i - 1]);
    }
    let mut bridge = NautilusDerivativesBridge::new();
    bridge.note_message();
    assert_eq!(bridge.event_count(), 1);
}

fn instrument(inst_type: OkxInstType) -> OkxInstrumentId {
    OkxInstrumentId {
        base_currency: "BTC".to_string(),
        quote_currency: "USDT".to_string(),
        inst_type,
        expiry: None,
        strike: None,
        option_type: None,
    }
}

#[test]
fn test_instrument_id_spot() {
    let inst = instrument(OkxInstType::Spot);
    assert_eq!(inst.to_okx_id(), "BTC-USDT");
}

#[test]
fn test_instrument_id_swap() {
    let inst = instrument(OkxInstType::Swap);
    assert_eq!(inst.to_okx_id(), "BTC-USDT-SWAP");
}

#[test]
fn identifiers_are_read_back() {
    let swap = OkxInstrumentId::from_okx_id("BTC-USDT-SWAP").unwrap();
    assert_eq!(swap.inst_type, OkxInstType::Swap);
    assert_eq!(swap.to_okx_id(), "BTC-USDT-SWAP");
    assert!(OkxInstrumentId::from_okx_id("BTC").is_none());
}

fn okx() -> OkxGateway {
    OkxGateway::new(
        Some(OkxCredentials {
            api_key: "key".to_string(),
            api_secret: "sec".to_string(),
            passphrase: "pass".to_string(),
        }),
        OkxAccountType::Demo,
    )
}

#[test]
fn okx_signs_requests() {
    let gateway = okx();
    let signature = gateway.generate_signature(
        "2024-01-01T00:00:00.000Z",
        "GET",
        "/api/v5/account",
        "",
    );
    assert_eq!(signature, "1Wmqzdvcxinfh2/C6KWyijO5fxnnRHqb1tcsYB6RyuY=");
    let headers = gateway.build_auth_headers("GET", "/api/v5/account", "").unwrap();
    let time = headers.get("OK-ACCESS-TIMESTAMP").unwrap().clone();
    assert!(time.starts_with("20"));
    assert!(time.contains("T"));
    assert_eq!(headers.get("OK-ACCESS-KEY").unwrap(), "key");
    let nobody = OkxGateway::new(None, OkxAccountType::Live);
    assert!(nobody.build_auth_headers("GET", "/", "").is_none());
    let (method, url) = gateway.build_cancel_order_request(&OkxCancelOrderRequest {
        inst_id: "BTC-USDT".to_string(),
        ord_id: None,
        cl_ord_id: None,
    });
    assert_eq!(method, "DELETE");
    assert!(url.ends_with("/api/v5/trade/cancel-order"));
}

#[test]
fn okx_subscriptions_are_json() {
    let gateway = okx();
    let value: serde_json::Value =
        serde_json::from_str(&gateway.subscribe_orderbook("BTC-USDT")).unwrap();
    assert_eq!(value.get("op").unwrap().as_str(), Some("subscribe"));
    let arg = value.get("args").unwrap().as_array().unwrap()[0].clone();
    assert_eq!(arg.get("channel").unwrap().as_str(), Some("books"));
    assert_eq!(arg.get("instId").unwrap().as_str(), Some("BTC-USDT"));
}

#[test]
fn instruments_are_remembered() {
    let mut gateway = okx();
    assert_eq!(gateway.get_or_create_inst_id("BTC/USDT", OkxInstType::Swap), "BTC-USDT-SWAP");
    assert_eq!(gateway.get_or_create_inst_id("BTC/USDT", OkxInstType::Spot), "BTC-USDT-SWAP");
}

fn unified(venue: Venue) -> UnifiedOrder {
    UnifiedOrder {
        client_order_id: "TEST123".to_string(),
        symbol: "BTCUSDT".to_string(),
        venue,
        side: UnifiedSide::Buy,
        order_type: UnifiedOrderType::Limit,
        quantity: amt(0.001),
        price: Some(amt(45000.0)),
        stop_price: None,
        time_in_force: UnifiedTimeInForce::GTC,
        reduce_only: false,
        timestamp_ns: 0,
    }
}

#[test]
fn test_venue_translation() {
    let router = UnifiedRouter::new(RouterConfig::default());
    match router.translate_order(&unified(Venue::Binance)) {
        VenueOrder::Binance(bin_order) => {
            assert_eq!(bin_order.side, "BUY");
            assert_eq!(bin_order.order_type, "LIMIT");
            assert_eq!(bin_order.quantity, "0.001");
            assert_eq!(bin_order.price, Some("45000".to_string()));
        },
        _ => panic!("Expected Binance order"),
    }
}

#[test]
fn test_venue_as_str() {
    assert_eq!(Venue::Binance.as_str(), "binance");
    assert_eq!(Venue::Bybit.as_str(), "bybit");
    assert_eq!(Venue::OKX.as_str(), "okx");
}

#[test]
fn symbols_are_mapped_by_venue() {
    let mut router = UnifiedRouter::new(RouterConfig::default());
    assert_eq!(router.get_venue_symbol("btcusdt", Venue::Binance), "BTCUSDT");
    router.register_symbol_mapping("btcusdt", Venue::OKX, "BTC-USDT-SWAP");
    assert_eq!(router.get_venue_symbol("btcusdt", Venue::OKX), "BTC-USDT-SWAP");
    match router.translate_order(&unified(Venue::Bybit)) {
        VenueOrder::Bybit(order) => {
            assert_eq!(order.category, "linear");
            assert_eq!(order.time_in_force, "GoodTillCancel");
        },
        _ => panic!("expected a Bybit order"),
    }
}

#[test]
fn the_fastest_venue_is_selected() {
    let mut router = UnifiedRouter::new(RouterConfig::default());
    let a = router.generate_client_order_id("X");
    let b = router.generate_client_order_id("X");
    assert_ne!(a, b);
    for _ in 0..50 {
        router.update_venue_stats(Venue::Binance, 5_000_000, true);
        router.update_venue_stats(Venue::OKX, 5_000_000, true);
        router.update_venue_stats(Venue::Bybit, 1, true);
    }
    if router.config.smart_routing_enabled {
        assert_eq!(router.select_best_venue("BTCUSDT"), Venue::Bybit);
    }
}

#[test]
fn decimal_notation_is_read() {
    assert_eq!(parse_amount("12.5"), Some(amt(12.5)));
    assert_eq!(parse_amount("-0.25"), Some(amt(-0.25)));
    assert_eq!(parse_amount("+3"), Some(amt(3.0)));
    assert_eq!(parse_amount("1e-8"), Some(Amount { units: 1 }));
    assert_eq!(parse_amount("1.23456789876"), Some(Amount { units: 123_456_789 }));
    assert_eq!(parse_amount("2.5E3"), Some(amt(2500.0)));
    assert_eq!(parse_amount("1e400"), Some(Amount { units: i64::MAX }));
    assert_eq!(parse_amount("-1e99999999999999999999999999999999999"), Some(Amount { units: i64::MIN }));
    assert_eq!(parse_amount("7e-99999999999999999999999999999999999"), Some(amt(0.0)));
    assert_eq!(parse_amount("0e99999999999999999999999999999999999"), Some(amt(0.0)));
    assert_eq!(parse_amount("123456789012345678901234567890e-25"), Some(Amount { units: 1234567890123 }));
    for text in ["", ".", "-", "1.2.3", "e5", "1e", "1e+", "abc", "1 ", " 1", "--1", "0x10"] {
        assert_eq!(parse_amount(text), None, "{}", text);
    }
}

#[test]
fn a_bybit_book_counts_what_is_no_number_as_zero() {
    let gateway = BybitWsGateway::new(None);
    let snapshot = OrderbookSnapshot {
        s: "BTCUSDT".to_string(),
        b: vec![["100.5".to_string(), "2".to_string()], ["?".to_string(), "1".to_string()]],
        a: vec![["101".to_string(), "".to_string()]],
        u: 7,
        seq: 8,
    };
    let book = gateway.convert_orderbook(&snapshot);
    assert_eq!(book.symbol, "BTCUSDT");
    assert_eq!(book.bids, vec![(amt(100.5), amt(2.0)), (amt(0.0), amt(1.0))]);
    assert_eq!(book.asks, vec![(amt(101.0), amt(0.0))]);
    assert_eq!((book.update_id, book.sequence), (7, 8));
}

#[test]
fn an_okx_book_leaves_out_what_is_no_number() {
    let gateway = OkxGateway::new(None, OkxAccountType::Live);
    let data: serde_json::Value = serde_json::from_str(
        r#"{"instId":"BTC-USDT","bids":[["100.5","2"],["x","1"],["99"],[98,"1"]],"asks":[["101","3","0"]]}"#,
    )
    .unwrap();
    let book = gateway.parse_orderbook(&data).unwrap();
    assert_eq!(book.symbol, "BTC-USDT");
    assert_eq!(book.bids, vec![(amt(100.5), amt(2.0))]);
    assert_eq!(book.asks, vec![(amt(101.0), amt(3.0))]);
    let no_asks: serde_json::Value = serde_json::from_str(r#"{"bids":[]}"#).unwrap();
    assert!(gateway.parse_orderbook(&no_asks).is_none());
}

#[test]
fn okx_options_are_read_back() {
    let option = OkxInstrumentId::from_okx_id("BTC-USD-240628-60000-C").unwrap();
    assert_eq!(option.inst_type, OkxInstType::Option);
    assert_eq!(option.expiry.as_deref(), Some("240628"));
    assert_eq!(option.strike.as_deref(), Some("60000"));
    assert_eq!(option.option_type.as_deref(), Some("C"));
    assert_eq!(option.to_okx_id(), "BTC-USD-240628-60000-C");
    let other = OkxInstrumentId::from_okx_id("BTC-USD-240628-60000").unwrap();
    assert_eq!(other.inst_type, OkxInstType::Spot);
}

#[test]
fn texts_beyond_all_numbers_are_the_ends_of_the_range() {
    assert_eq!(parse_amount("inf").unwrap().units, i64::MAX);
    assert_eq!(parse_amount("-Infinity").unwrap().units, i64::MIN);
    assert_eq!(parse_amount("+INF").unwrap().units, i64::MAX);
    assert!(parse_amount("infin").is_none());
    assert!(parse_amount("nan").is_none());
    assert!(parse_amount("-").is_none());
}

#[test]
fn okx_times_are_in_iso_form() {
    let at = UtcInstant { secs: 1_706_704_245, nanos: 120_000_000 };
    assert_eq!(OkxGateway::get_timestamp_iso_at(at), "2024-01-31T12:30:45.120000000Z");
    let now = OkxGateway::get_timestamp_iso();
    assert!(now.starts_with("20"));
    assert_eq!(&now[10..11], "T");
    assert!(now.ends_with("Z"));
    assert_eq!(now.len(), 30);
}
