use trading_core::base::amount::Amount;
use trading_core::fallback::state_parker::{
    ParkError, ParkedOrder, ParkedPosition, ParkedState, ParkedStateBuilder, ParkingReason,
    StateParker,
};
use trading_core::frontend_bridge::rest_api_server::{
    ApiResponse, HttpMethod, RateLimitConfig, RestApiServer, RestServerConfig, TokenBucket,
};
use trading_core::frontend_bridge::ws_broadcaster::{
    LttbDownsampler, WsBroadcaster, WsMessageHeader, WsMessageType,
};
use trading_core::fundamentals::supply_analyzer::{
    MilestoneDirection, StakingData, SupplyAnalyzer, SupplyRegime,
};

fn amt(x: f64) -> Amount {
    Amount { units: (x * 1e8).round() as i64 }
}

fn position() -> ParkedPosition {
    ParkedPosition {
        symbol: "BTCUSDT".to_string(),
        side: "long".to_string(),
        quantity: amt(1.5),
        entry_price: amt(50000.0),
        unrealized_pnl: amt(150.0),
    }
}

const REASONS: [ParkingReason; 5] = [
    ParkingReason::NetworkLoss,
    ParkingReason::CriticalError,
    ParkingReason::ManualStop,
    ParkingReason::SystemSleep,
    ParkingReason::PowerFailure,
];

type PositionFields = (String, String, i64, i64, i64);
type OrderFields = (String, String, String, i64, i64, String);
type StateFields = (u64, u32, Vec<PositionFields>, Vec<OrderFields>, Vec<u8>, u64);

fn state_to_bytes(state: &ParkedState) -> Vec<u8> {
    let fields: StateFields = (
        state.timestamp_ns,
        REASONS.iter().position(|r| *r == state.reason).unwrap() as u32,
        state
            .positions
            .iter()
            .map(|p| {
                (
                    p.symbol.clone(),
                    p.side.clone(),
                    p.quantity.units,
                    p.entry_price.units,
                    p.unrealized_pnl.units,
                )
            })
            .collect(),
        state
            .pending_orders
            .iter()
            .map(|o| {
                (
                    o.order_id.clone(),
                    o.symbol.clone(),
                    o.side.clone(),
                    o.quantity.units,
                    o.price.units,
                    o.order_type.clone(),
                )
            })
            .collect(),
        state.strategy_state.clone(),
        state.checksum,
    );
    bincode::serialize(&fields).unwrap()
}

fn state_from_bytes(bytes: &[u8]) -> ParkedState {
    let (timestamp_ns, reason, positions, orders, strategy_state, checksum): StateFields =
        bincode::deserialize(bytes).unwrap();
    ParkedState {
        timestamp_ns,
        reason: REASONS[reason as usize],
        positions: positions
            .into_iter()
            .map(|(symbol, side, quantity, entry_price, unrealized_pnl)| ParkedPosition {
                symbol,
                side,
                quantity: Amount { units: quantity },
                entry_price: Amount { units: entry_price },
                unrealized_pnl: Amount { units: unrealized_pnl },
            })
            .collect(),
        pending_orders: orders
            .into_iter()
            .map(|(order_id, symbol, side, quantity, price, order_type)| ParkedOrder {
                order_id,
                symbol,
                side,
                quantity: Amount { units: quantity },
                price: Amount { units: price },
                order_type,
            })
            .collect(),
        strategy_state,
        checksum,
    }
}

#[test]
fn test_park_restore() {
    let key = [42u8; 32];
    let mut parker = StateParker::new(&key);
    let state = ParkedStateBuilder::new()
        .add_position(position())
        .build(ParkingReason::NetworkLoss);
    let stored = parker.park_emergency(&state_to_bytes(&state)).unwrap();
    parker.confirm_parked();
    assert!(parker.is_parked());
    let restored = state_from_bytes(&parker.restore(&stored).unwrap());
    parker.confirm_restored();
    assert_eq!(restored.positions.len(), 1);
    assert_eq!(restored.positions[0].symbol, "BTCUSDT");
    assert_eq!(restored.reason, ParkingReason::NetworkLoss);
    assert_eq!(restored.positions[0].quantity, amt(1.5));
    assert_eq!(restored.timestamp_ns, state.timestamp_ns);
    assert_eq!(restored.checksum, StateParker::calculate_checksum(&restored));
    assert!(!parker.is_parked());
}

#[test]
fn sealed_bytes_are_framed_and_cannot_be_changed() {
    let parker = StateParker::new(&[1u8; 32]);
    let plain = b"positions and orders".to_vec();
    let nonce = [9u8; 12];
    let stored = parker.encrypt_with(&nonce, &plain).unwrap();
    assert_eq!(stored.len(), 12 + plain.len() + 16);
    assert_eq!(&stored[..12], &nonce);
    assert_ne!(&stored[12..12 + plain.len()], &plain[..]);
    assert_eq!(parker.decrypt_data(&stored), Ok(plain.clone()));
    let mut broken = stored.clone();
    broken[20] ^= 1;
    assert_eq!(parker.decrypt_data(&broken), Err(ParkError::DecryptionFailed));
    assert_eq!(parker.decrypt_data(&stored[..11]), Err(ParkError::TooShort));
    let other = StateParker::new(&[2u8; 32]);
    assert_eq!(other.restore(&stored), Err(ParkError::DecryptionFailed));
    let a = parker.encrypt_data(&plain).unwrap();
    let b = parker.encrypt_data(&plain).unwrap();
    assert_ne!(a, b);
    assert_eq!(ParkError::TooShort.to_string(), "Encrypted data too short");
}

#[test]
fn a_state_is_parked_once() {
    let mut parker = StateParker::new(&[3u8; 32]);
    parker.confirm_parked();
    assert_eq!(parker.park_emergency(b"x"), Err(ParkError::AlreadyParked));
    assert_eq!(ParkError::AlreadyParked.to_string(), "State already parked");
}

#[test]
fn checksums_cover_time_and_counts() {
    let order = ParkedOrder {
        order_id: "1".to_string(),
        symbol: "S".to_string(),
        side: "buy".to_string(),
        quantity: amt(1.0),
        price: amt(2.0),
        order_type: "limit".to_string(),
    };
    let a = ParkedStateBuilder::new().add_position(position()).build_at(ParkingReason::ManualStop, 5);
    let b = ParkedStateBuilder::new()
        .add_position(position())
        .set_strategy_state(vec![1, 2])
        .build_at(ParkingReason::SystemSleep, 5);
    let c = ParkedStateBuilder::default().add_order(order).build_at(ParkingReason::ManualStop, 5);
    assert_eq!(a.checksum, b.checksum);
    assert_ne!(a.checksum, c.checksum);
    assert_eq!(a.checksum, StateParker::calculate_checksum(&b));
    assert_ne!(a.checksum, 0);
}

#[test]
fn test_token_bucket_rate_limiter() {
    let config = RateLimitConfig { requests_per_second: 10, burst_size: 5 };
    let mut limiter = TokenBucket::new(config);
    for _ in 0..5 {
        assert!(limiter.try_consume());
    }
    assert!(!limiter.try_consume());
}

#[test]
fn tokens_come_back() {
    let config = RateLimitConfig { requests_per_second: 10, burst_size: 2 };
    let mut limiter = TokenBucket::new_at(config, 0);
    assert!(limiter.try_consume_at(0));
    assert!(limiter.try_consume_at(0));
    assert!(!limiter.try_consume_at(99_999_999));
    assert!(limiter.try_consume_at(100_000_000));
    assert!(!limiter.try_consume_at(100_000_000));
    assert!(limiter.try_consume_at(10_000_000_000));
    assert_eq!(limiter.tokens, 1);
}

type Handler = fn(&str) -> ApiResponse;

fn health(_body: &str) -> ApiResponse {
    ApiResponse::ok(r#"{"status":"ok"}"#.to_string())
}

fn echo(body: &str) -> ApiResponse {
    ApiResponse::ok(body.to_string())
}

#[test]
fn test_rest_server_endpoints() {
    let mut server: RestApiServer<Handler> = RestApiServer::new(RestServerConfig::default());
    server.register_endpoint("/api/health", HttpMethod::GET, health, false);
    let response = server.handle_request(HttpMethod::GET, "/api/health", "");
    assert_eq!(response.status_code, 200);
    assert!(response.body.contains("ok"));
    let response = server.handle_request(HttpMethod::GET, "/api/unknown", "");
    assert_eq!(response.status_code, 404);
    assert_eq!(response.body, r#"{"error":"Endpoint not found: /api/unknown"}"#);
    let response = server.handle_request(HttpMethod::POST, "/api/health", "");
    assert_eq!(response.status_code, 404);
}

#[test]
fn test_server_stats() {
    let mut server: RestApiServer<Handler> = RestApiServer::new(RestServerConfig::default());
    server.register_endpoint("/test", HttpMethod::GET, health, false);
    server.start();
    for _ in 0..10 {
        server.handle_request(HttpMethod::GET, "/test", "");
    }
    let stats = server.get_stats();
    assert!(stats.is_running);
    assert_eq!(stats.request_count, 10);
    assert_eq!(stats.endpoint_count, 1);
    server.stop();
    assert!(!server.get_stats().is_running);
}

#[test]
fn too_many_requests_are_rejected() {
    let mut config = RestServerConfig::default();
    config.rate_limit = RateLimitConfig { requests_per_second: 1, burst_size: 1 };
    let mut server: RestApiServer<Handler> = RestApiServer::new_at(config, 0);
    server.register_endpoint("/a", HttpMethod::PUT, health, true);
    server.register_endpoint("/a", HttpMethod::PUT, health, true);
    assert_eq!(server.handle_request_at(HttpMethod::PUT, "/a", "", 0).status_code, 200);
    let response = server.handle_request_at(HttpMethod::PUT, "/a", "", 0);
    assert_eq!(response.status_code, 429);
    assert_eq!(response.body, r#"{"error":"Rate limit exceeded"}"#);
    assert_eq!(response.content_type, "application/json");
    let stats = server.get_stats();
    assert_eq!(stats.rejected_count, 1);
    assert_eq!(stats.endpoint_count, 1);
}

#[test]
fn a_handler_answers_with_the_body_of_its_request() {
    let mut server: RestApiServer<Box<dyn Fn(&str) -> ApiResponse>> = RestApiServer::default();
    server.register_endpoint("/echo", HttpMethod::POST, Box::new(echo), false);
    server.register_endpoint(
        "/length",
        HttpMethod::POST,
        Box::new(|body: &str| ApiResponse::ok(body.len().to_string())),
        false,
    );
    assert_eq!(server.handle_request(HttpMethod::POST, "/echo", "abc").body, "abc");
    assert_eq!(server.handle_request(HttpMethod::POST, "/length", "abcd").body, "4");
    assert_eq!(server.get_stats().request_count, 2);
    assert_eq!(server.get_stats().rejected_count, 0);
}

#[test]
fn client_numbers_are_never_reused() {
    let mut broadcaster = WsBroadcaster::new(2);
    assert_eq!(broadcaster.add_client(), Some(1));
    assert_eq!(broadcaster.add_client(), Some(2));
    assert_eq!(broadcaster.add_client(), None);
    assert_eq!(broadcaster.client_count(), 2);
    broadcaster.remove_client(1);
    broadcaster.start();
    assert_eq!(broadcaster.add_client(), Some(3));
    broadcaster.broadcast(WsMessageType::Log, b"x");
    broadcaster.stop();
    assert_eq!(broadcaster.client_count(), 0);
    assert_eq!(broadcaster.add_client(), Some(4));
}

#[test]
fn test_lttb_downsampling() {
    let downsampler = LttbDownsampler::new(100);
    let data: Vec<(Amount, Amount)> = (0..1000)
        .map(|i| (amt(i as f64), amt((i % 100) as f64)))
        .collect();
    let downsampled = downsampler.downsample(&data, 10);
    assert!(downsampled.len() <= 10);
    assert_eq!(downsampled.first(), Some(&(amt(0.0), amt(0.0))));
    assert_eq!(downsampled.last(), Some(&(amt(999.0), amt(99.0))));
    assert_eq!(downsampled[1], (amt(199.0), amt(99.0)));
    assert_eq!(downsampler.downsample(&data[..5], 10).len(), 5);
}

#[test]
fn test_broadcaster_lifecycle() {
    let mut broadcaster = WsBroadcaster::new(10);
    let client1 = broadcaster.add_client();
    let client2 = broadcaster.add_client();
    assert_eq!(client1, Some(1));
    assert_eq!(client2, Some(2));
    assert_eq!(broadcaster.client_count(), 2);
    broadcaster.start();
    let sent = broadcaster.broadcast(WsMessageType::Heartbeat, b"test");
    assert_eq!(sent, 2);
    broadcaster.remove_client(1);
    assert_eq!(broadcaster.client_count(), 1);
    broadcaster.stop();
    assert_eq!(broadcaster.client_count(), 0);
}

#[test]
fn messages_carry_a_header() {
    let mut broadcaster = WsBroadcaster::new(1);
    assert_eq!(broadcaster.add_client_at(5), Some(1));
    assert_eq!(broadcaster.add_client_at(5), None);
    assert_eq!(broadcaster.broadcast_at(WsMessageType::Log, b"x", 1), 0);
    broadcaster.start();
    broadcaster.broadcast_at(WsMessageType::Log, b"x", 1);
    let sent = broadcaster.broadcast_at(WsMessageType::Signal, b"abc", 0x0102_0304_0506_0708);
    assert_eq!(sent, 1);
    let expected: Vec<u8> = vec![
        2, 0, 0, 0, 1, 0, 0, 0, 3, 0, 0, 0, 0, 0, 0, 0, 8, 7, 6, 5, 4, 3, 2, 1, b'a', b'b', b'c',
    ];
    assert_eq!(broadcaster.message_buffer, expected);
    assert_eq!(broadcaster.clients[0].messages_sent, 2);
    assert_eq!(broadcaster.clients[0].last_heartbeat, 0x0102_0304_0506_0708 / 1_000_000);
    assert_eq!(broadcaster.get_stats().total_messages, 2);
    assert_eq!(WsMessageHeader::new(WsMessageType::Heartbeat, 7).to_bytes()[0], 255);
}

#[test]
fn payloads_are_text() {
    let mut broadcaster = WsBroadcaster::default();
    broadcaster.start();
    broadcaster.send_pnl(amt(-1.25), amt(0.0), amt(12.5));
    assert_eq!(&broadcaster.message_buffer[24..], b"-1.25000000:0.00000000:12.50000000");
    broadcaster.send_signal("BTC", -1, amt(1.23456), amt(0.99995));
    assert_eq!(&broadcaster.message_buffer[24..], b"BTC:-1:1.2346:1.0000");
    broadcaster.send_log("WARN", "slow");
    assert_eq!(&broadcaster.message_buffer[24..], b"WARN:slow");
    broadcaster.send_orderbook("BTC", &[(amt(1.0), amt(0.5)), (amt(0.00001), amt(2.0))], &[]);
    assert_eq!(&broadcaster.message_buffer[24..], b"BTC:[(1.0, 0.5), (1e-5, 2.0)]:[]");
}

#[test]
fn test_supply_analyzer_creation() {
    let analyzer = SupplyAnalyzer::new(100_000_000_000_000_000_000);
    let metrics = analyzer.get_current_metrics();
    assert_eq!(metrics.total_supply, 100_000_000_000_000_000_000);
    assert_eq!(metrics.block_number, 0);
}

#[test]
fn test_process_block_with_burn() {
    let mut analyzer = SupplyAnalyzer::new(100_000_000_000_000_000_000);
    let metrics = analyzer.process_block(
        1,
        1000,
        30_000_000_000,
        15_000_000,
        2_000_000_000_000_000_000,
        None,
    );
    assert_eq!(metrics.block_number, 1);
    assert!(metrics.burned_supply > 0);
    assert!(metrics.deflation_rate_annual.is_positive());
    assert_eq!(metrics.burned_supply, 450_000_000_000_000_000);
    assert_eq!(metrics.total_supply, 101_550_000_000_000_000_000);
}

#[test]
fn test_deflationary_detection() {
    let mut analyzer = SupplyAnalyzer::default();
    analyzer.process_block(
        1,
        1000,
        100_000_000_000,
        30_000_000,
        2_000_000_000_000_000_000,
        None,
    );
    assert_eq!(analyzer.get_regime(), SupplyRegime::Deflationary);
    assert!(analyzer.is_deflationary());
}

#[test]
fn blocks_are_processed_once() {
    let mut analyzer = SupplyAnalyzer::new(1000);
    let staking = StakingData {
        total_validators: 1,
        total_staked_eth: 400,
        annual_issuance_eth: 2_628_000 * 3,
    };
    let metrics = analyzer.process_block(5, 1, 2, 10, 7, Some(staking));
    assert_eq!(metrics.total_supply, 990);
    assert_eq!(metrics.circulating_supply, 590);
    assert_eq!(metrics.staked_supply, 400);
    let again = analyzer.process_block(5, 1, 9, 9, 9, None);
    assert_eq!(again, metrics);
    analyzer.process_block(6, 2, 1, 10, 0, None);
    analyzer.process_block(7, 3, 3, 10, 30, None);
    assert_eq!(analyzer.get_average_burn_rate(2), 20);
    assert_eq!(analyzer.get_average_burn_rate(0), 0);
    assert_eq!(analyzer.get_burn_trend(2)[0].block_number, 7);
    assert_eq!(analyzer.get_regime(), SupplyRegime::Neutral);
    analyzer.set_max_history(1);
    assert_eq!(analyzer.get_average_burn_rate(10), 30);
    let supply = analyzer.get_current_metrics().total_supply;
    assert_eq!(
        analyzer.estimate_milestone(supply).unwrap().direction,
        MilestoneDirection::AlreadyReached
    );
    assert!(analyzer.estimate_milestone(supply + 1).is_none());
    assert_eq!(supply, 980);
    let after = analyzer.process_block(8, 4, 2, 10, 0, None);
    assert_eq!(after.total_supply, 960);
    let estimate = analyzer.estimate_milestone(862).unwrap();
    assert_eq!(estimate.direction, MilestoneDirection::Decreasing);
    assert_eq!(estimate.blocks_until_milestone, 5);
    assert_eq!(estimate.estimated_time_secs, 60);
    let estimate = analyzer.estimate_milestone(u128::MAX).unwrap();
    assert_eq!(estimate.direction, MilestoneDirection::Increasing);
    assert_eq!(estimate.blocks_until_milestone, u64::MAX);
}

#[test]
fn bucket_admits_burst_then_rate() {
    let second = 1_000_000_000u64;
    let config = RateLimitConfig { requests_per_second: 1, burst_size: 2 };
    let mut bucket = TokenBucket::new_at(config, 0);
    assert!(bucket.try_consume_at(0));
    assert!(bucket.try_consume_at(0));
    assert!(!bucket.try_consume_at(0));
    assert!(bucket.try_consume_at(second));
    assert!(!bucket.try_consume_at(second + 1));
}
