use trading_core::base::amount::Amount;
use trading_core::base::table::Table;
use trading_core::exchange::binance_order_manager::{
    BinanceOrderManager, BinanceOrderSide, BinanceOrderStatus, BinanceOrderType,
    BinanceOrderUpdate, BinanceTimeInForce, OrderUpdateReason,
};
use trading_core::exchange::rate_limiter::{BinanceRateLimiter, BinanceRateLimits, TokenBucket};
use trading_core::exchange::reconciliation::{
    DiscrepancyType, ExchangeOrderSnapshot, LocalOrderSnapshot, ReconciliationDaemon, SyncStatus,
};

fn amt(x: f64) -> Amount {
    Amount { units: (x * 1e8).round() as i64 }
}

fn update(
    client: &str,
    symbol: &str,
    side: BinanceOrderSide,
    order_id: u64,
    quantity: f64,
    price: f64,
    executed: f64,
    status: BinanceOrderStatus,
    reason: OrderUpdateReason,
) -> BinanceOrderUpdate {
    BinanceOrderUpdate {
        symbol: symbol.to_string(),
        order_id,
        client_order_id: client.to_string(),
        side,
        order_type: BinanceOrderType::Limit,
        time_in_force: BinanceTimeInForce::GTC,
        quantity: amt(quantity),
        price: amt(price),
        stop_price: None,
        executed_qty: amt(executed),
        cummulative_quote_qty: amt(executed * price),
        average_price: amt(if executed > 0.0 { price } else { 0.0 }),
        status,
        update_reason: reason,
        timestamp_ms: 0,
        last_executed_qty: amt(executed),
        last_executed_price: amt(if executed > 0.0 { price } else { 0.0 }),
    }
}

#[test]
fn test_order_lifecycle() {
    let mut manager = BinanceOrderManager::new();
    manager.register_outgoing_order(
        "ORDER_001",
        "BTCUSDT",
        BinanceOrderSide::Buy,
        amt(1.0),
        amt(50_000.0),
    );
    assert_eq!(manager.pending_orders.len(), 1);
    let report = update(
        "ORDER_001",
        "BTCUSDT",
        BinanceOrderSide::Buy,
        12345,
        1.0,
        50_000.0,
        0.0,
        BinanceOrderStatus::New,
        OrderUpdateReason::PlacementNew,
    );
    let result = manager.process_execution_report(report);
    assert!(result.success);
    assert_eq!(manager.pending_orders.len(), 0);
}

#[test]
fn test_fill_tracking() {
    let mut manager = BinanceOrderManager::new();
    manager.register_outgoing_order(
        "ORDER_002",
        "ETHUSDT",
        BinanceOrderSide::Sell,
        amt(5.0),
        amt(3_000.0),
    );
    let partial = update(
        "ORDER_002",
        "ETHUSDT",
        BinanceOrderSide::Sell,
        12346,
        5.0,
        3_000.0,
        2.0,
        BinanceOrderStatus::PartiallyFilled,
        OrderUpdateReason::Trade,
    );
    manager.process_execution_report(partial);
    let stats = manager.get_daily_stats();
    assert_eq!(stats.fills_received, 1);
    let active = manager.get_active_orders("ETHUSDT");
    assert_eq!(active.len(), 1);
    assert_eq!(active[0].filled_quantity, amt(2.0));
}

#[test]
fn a_report_of_an_unknown_order_is_taken_in() {
    let mut manager = BinanceOrderManager::new();
    let report = update(
        "NOBODY",
        "BTCUSDT",
        BinanceOrderSide::Buy,
        1,
        1.0,
        10.0,
        0.0,
        BinanceOrderStatus::New,
        OrderUpdateReason::PlacementNew,
    );
    assert!(manager.get_order_status("NOBODY").is_none());
    manager.deactivate();
    let refused = manager.process_execution_report(report.clone());
    assert!(!refused.success);
    assert_eq!(refused.error, Some("Order manager inactive".to_string()));
    manager.activate();
    let result = manager.process_execution_report(report);
    assert!(result.success);
    assert_eq!(manager.get_order_status("NOBODY").unwrap().quantity, amt(1.0));
}

#[test]
fn orders_grow_stale_with_time() {
    let mut manager = BinanceOrderManager::new();
    manager.register_outgoing_order_at(
        "A",
        "BTCUSDT",
        BinanceOrderSide::Buy,
        amt(1.0),
        amt(1.0),
        1_000_000_000,
    );
    manager.set_max_pending_age_ms(500);
    assert!(manager.check_stale_pending_orders_at(1_400).is_empty());
    assert_eq!(manager.check_stale_pending_orders_at(2_000), vec!["A".to_string()]);
}

#[test]
fn test_token_bucket() {
    let mut bucket = TokenBucket::new(10, 5);
    assert!(bucket.try_consume(5));
    assert_eq!(bucket.get_tokens(), 5);
    assert!(!bucket.try_consume(6));
    assert_eq!(bucket.get_tokens(), 5);
}

#[test]
fn a_bucket_refills_with_time() {
    let mut bucket = TokenBucket::new_at(10, 5, 0);
    assert!(bucket.try_consume_at(10, 0));
    assert!(!bucket.try_consume_at(1, 100_000_000));
    assert!(bucket.try_consume_at(5, 1_000_000_000));
    assert!(!bucket.try_consume_at(1, 1_000_000_000));
    let waiting = bucket.consume_with_wait_at(5, 1_000_000_000);
    assert!(!waiting.allowed);
    assert_eq!(waiting.wait_time_ms, 1000);
    let later = bucket.consume_with_wait_at(5, 2_000_000_000);
    assert!(later.allowed);
}

#[test]
fn test_rate_limiter() {
    let limits = BinanceRateLimits {
        request_weight_per_min: 60,
        orders_per_second: 5,
        raw_requests_per_sec: 20,
    };
    let mut limiter = BinanceRateLimiter::new(limits);
    let result = limiter.check_request(10);
    assert!(result.allowed);
    let order_result = limiter.check_order_placement();
    assert!(order_result.allowed);
    let status = limiter.get_status();
    assert_eq!(status.total_orders_today, 1);
}

#[test]
fn test_pre_order_check() {
    let mut limiter = BinanceRateLimiter::default();
    let result = limiter.pre_order_check(5);
    assert!(result.allowed);
    assert_eq!(result.max_wait_ms, 0);
}

fn local(id: &str, symbol: &str, side: &str, filled: f64) -> LocalOrderSnapshot {
    LocalOrderSnapshot {
        client_order_id: id.to_string(),
        symbol: symbol.to_string(),
        side: side.to_string(),
        quantity: amt(5.0),
        filled_qty: amt(filled),
        price: amt(3_000.0),
        status: "PARTIALLY_FILLED".to_string(),
    }
}

fn remote(id: &str, symbol: &str, side: &str, filled: f64) -> ExchangeOrderSnapshot {
    ExchangeOrderSnapshot {
        client_order_id: id.to_string(),
        symbol: symbol.to_string(),
        side: side.to_string(),
        quantity: amt(5.0),
        filled_qty: amt(filled),
        price: amt(3_000.0),
        status: "PARTIALLY_FILLED".to_string(),
    }
}

#[test]
fn test_reconciliation_daemon() {
    let mut daemon = ReconciliationDaemon::new(60);
    daemon.add_symbol("BTCUSDT");
    let local_orders = vec![LocalOrderSnapshot {
        client_order_id: "ORDER_001".to_string(),
        symbol: "BTCUSDT".to_string(),
        side: "BUY".to_string(),
        quantity: amt(1.0),
        filled_qty: amt(0.5),
        price: amt(50_000.0),
        status: "PARTIALLY_FILLED".to_string(),
    }];
    let exchange_orders = vec![ExchangeOrderSnapshot {
        client_order_id: "ORDER_001".to_string(),
        symbol: "BTCUSDT".to_string(),
        side: "BUY".to_string(),
        quantity: amt(1.0),
        filled_qty: amt(0.5),
        price: amt(50_000.0),
        status: "PARTIALLY_FILLED".to_string(),
    }];
    let status = daemon.reconcile_symbol("BTCUSDT", &local_orders, &exchange_orders);
    assert_eq!(status.sync_status, SyncStatus::InSync);
    assert_eq!(status.discrepancies_found, 0);
}

#[test]
fn test_discrepancy_detection() {
    let mut daemon = ReconciliationDaemon::new(60);
    let local_orders = vec![local("ORDER_002", "ETHUSDT", "SELL", 2.0)];
    let exchange_orders = vec![remote("ORDER_002", "ETHUSDT", "SELL", 3.0)];
    let status = daemon.reconcile_symbol("ETHUSDT", &local_orders, &exchange_orders);
    assert!(status.discrepancies_found > 0);
    assert_eq!(status.sync_status, SyncStatus::MinorDrift);
}

#[test]
fn orders_on_one_side_only_are_found() {
    let mut daemon = ReconciliationDaemon::new(60);
    let status = daemon.reconcile_symbol_at(
        "ETHUSDT",
        &[local("MINE", "ETHUSDT", "SELL", 2.0)],
        &[remote("THEIRS", "ETHUSDT", "SELL", 2.0)],
        1_000,
    );
    assert_eq!(status.matched_orders, 0);
    assert_eq!(status.discrepancies_found, 2);
    let found = daemon.get_recent_discrepancies(10);
    assert_eq!(found.len(), 2);
    let kinds: Vec<DiscrepancyType> = found.iter().map(|d| d.discrepancy_type).collect();
    assert!(kinds.contains(&DiscrepancyType::MissingOrder));
    assert!(kinds.contains(&DiscrepancyType::PhantomOrder));
    assert_eq!(daemon.get_unresolved_discrepancies().len(), 2);
    let id = daemon.get_recent_discrepancies(1)[0].discrepancy_id.clone();
    daemon.mark_resolved(&id, "cancelled");
    assert_eq!(daemon.get_unresolved_discrepancies().len(), 1);
}

#[test]
fn all_monitored_symbols_are_reconciled() {
    let mut daemon = ReconciliationDaemon::new(60);
    daemon.add_symbol("BTCUSDT");
    daemon.add_symbol("ETHUSDT");
    daemon.add_symbol("ETHUSDT");
    let mut locals: Table<Vec<LocalOrderSnapshot>> = Table::new();
    let mut remotes: Table<Vec<ExchangeOrderSnapshot>> = Table::new();
    locals.insert("ETHUSDT".to_string(), vec![local("X", "ETHUSDT", "BUY", 1.0)]);
    remotes.insert("ETHUSDT".to_string(), vec![remote("X", "ETHUSDT", "BUY", 1.0)]);
    let summary = daemon.full_reconciliation(&locals, &remotes);
    assert_eq!(summary.total_symbols_checked, 2);
    assert_eq!(summary.total_discrepancies_found, 0);
    assert_eq!(daemon.get_stats().monitored_symbols_count, 2);
}

#[test]
fn a_run_over_all_symbols_is_counted() {
    let mut daemon = ReconciliationDaemon::new(60);
    daemon.consecutive_failures = 3;
    let locals: Table<Vec<LocalOrderSnapshot>> = Table::new();
    let mut remotes: Table<Vec<ExchangeOrderSnapshot>> = Table::new();
    daemon.full_reconciliation_at(&locals, &remotes, 1000);
    assert_eq!(daemon.get_stats().total_reconciliations, 0);
    assert_eq!(daemon.get_stats().consecutive_failures, 3);
    daemon.add_symbol("BTCUSDT");
    daemon.add_symbol("ETHUSDT");
    remotes.insert("ETHUSDT".to_string(), vec![remote("X", "ETHUSDT", "BUY", 1.0)]);
    let summary = daemon.full_reconciliation_at(&locals, &remotes, 2000);
    assert_eq!(summary.total_discrepancies_found, 1);
    let stats = daemon.get_stats();
    assert_eq!(stats.total_reconciliations, 2);
    assert_eq!(stats.total_discrepancies_found, 1);
    assert_eq!(stats.total_discrepancies_fixed, 0);
    assert_eq!(stats.consecutive_failures, 0);
}

#[test]
fn tables_keep_one_value_for_a_key() {
    let mut t: Table<u64> = Table::new();
    assert_eq!(t.insert("a".to_string(), 1), None);
    assert_eq!(t.insert("b".to_string(), 2), None);
    assert_eq!(t.insert("a".to_string(), 3), Some(1));
    assert_eq!(t.len(), 2);
    assert_eq!(t.get("a"), Some(&3));
    assert_eq!(t.remove("b"), Some(2));
    assert!(!t.contains_key("b"));
}

#[test]
fn bucket_gives_no_more_than_its_rate() {
    let second = 1_000_000_000u64;
    let mut bucket = TokenBucket::new_at(10, 4, 0);
    let mut taken = 0u64;
    for step in 0..60u64 {
        if bucket.try_consume_at(3, step * second / 20) {
            taken += 3;
        }
    }
    assert!(taken <= 10 + 4 * 3);
    assert!(taken >= 9);
}

#[test]
fn an_order_first_seen_in_a_report_is_active() {
    let mut manager = BinanceOrderManager::new();
    let report = |id: &str, symbol: &str, status: BinanceOrderStatus| {
        update(
            id,
            symbol,
            BinanceOrderSide::Buy,
            1,
            1.0,
            100.0,
            0.0,
            status,
            OrderUpdateReason::PlacementNew,
        )
    };
    manager.process_execution_report(report("X1", "BTCUSDT", BinanceOrderStatus::New));
    manager.register_outgoing_order("X2", "BTCUSDT", BinanceOrderSide::Buy, amt(1.0), amt(1.0));
    manager.register_outgoing_order("X2", "BTCUSDT", BinanceOrderSide::Buy, amt(1.0), amt(1.0));
    manager.register_outgoing_order("X3", "ETHUSDT", BinanceOrderSide::Buy, amt(1.0), amt(1.0));
    manager.register_outgoing_order("X3", "BTCUSDT", BinanceOrderSide::Buy, amt(1.0), amt(1.0));
    let active: Vec<&str> = manager
        .get_active_orders("BTCUSDT")
        .iter()
        .map(|o| o.client_order_id.as_str())
        .collect();
    assert_eq!(active, vec!["X1", "X2", "X3"]);
    assert!(manager.get_active_orders("ETHUSDT").is_empty());
    assert_eq!(manager.get_daily_stats().active_orders, 3);
    manager.process_execution_report(report("X1", "BTCUSDT", BinanceOrderStatus::Canceled));
    assert_eq!(manager.get_active_orders("BTCUSDT").len(), 2);
    assert_eq!(manager.get_daily_stats().active_orders, 2);
}
