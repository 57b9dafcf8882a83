use trading_core::base::amount::Amount;
use trading_core::execution::adaptive_algos::{
    calculate_orderbook_imbalance, AdaptiveExecutor, AlphaDecayModel, CvdTracker,
    ExecutionOrderType, OrderBookImbalance,
};
use trading_core::execution::discretionary_orders::{
    DiscretionaryManager, DynamicClipAdjuster, ReserveOrder, ReserveOrderManager,
};
use trading_core::execution::iceberg_sniper::{
    AggressorSide, DynamicIceberg, HiddenLiquidityDetector, HiddenLiquidityMethod, OrderBookLevel,
    OrderBookSnapshot, TradeFlowRecord,
};
use trading_core::execution::pegged_orders::{
    DiscretionaryOrder, PegType, PeggedOrderManager, ReserveOrderManager as ClipManager,
};
use trading_core::execution::twap_vwap::{IcebergOrder, TwapExecutor, VwapExecutor};

fn amt(x: f64) -> Amount {
    Amount { units: (x * 1e8).round() as i64 }
}

#[test]
fn test_reserve_order_fill() {
    let mut order = ReserveOrder::new(1, 1_000_000, 100_000, 50000, true);
    assert!(order.has_hidden());
    assert_eq!(order.current_visible(), 100_000);
    order.fill(100_000, 1000);
    assert_eq!(order.filled_qty, 100_000);
    assert!(order.is_active);
    assert!(order.has_hidden());
}

#[test]
fn a_reserve_order_fills_no_more_than_it_has() {
    let mut order = ReserveOrder::new(1, 100, 30, 5, true);
    assert_eq!(order.fill(80, 1), 80);
    assert_eq!(order.remaining(), 20);
    assert_eq!(order.hidden_qty, 20);
    assert_eq!(order.current_visible(), 20);
    assert_eq!(order.fill(50, 2), 20);
    assert!(!order.is_active);
    assert_eq!(order.hidden_qty, 0);
    assert!(!order.has_hidden());
    let mut other = ReserveOrder::new(2, 10, 20, 5, false);
    assert_eq!(other.hidden_qty, 0);
    other.cancel();
    assert!(!other.is_active);
}

#[test]
fn test_discretionary_pricing() {
    let mut manager = DiscretionaryManager::new(5, 50);
    let price1 = manager.calculate_discretionary_price(50000, true, 100_000);
    assert_eq!(price1, 50000);
    let price2 = manager.calculate_discretionary_price(50000, true, 1_000_000);
    assert!(price2 > 50000);
    assert!(manager.is_discretion_active());
    assert_eq!(price2, 50010);
}

#[test]
fn offsets_grow_with_pressure_and_volatility() {
    let mut manager = DiscretionaryManager::new(7, 100);
    assert_eq!(manager.calculate_discretionary_price(1000, false, -5_000_000), 979);
    manager.update_volatility(2_000_000);
    assert_eq!(manager.calculate_discretionary_price(1000, false, -5_000_000), 958);
    manager.update_volatility(100_000_000);
    assert_eq!(manager.calculate_discretionary_price(1000, true, 5_000_000), 1063);
    let mut capped = DiscretionaryManager::new(7, 8);
    assert_eq!(capped.calculate_discretionary_price(1000, true, 5_000_000), 1008);
    assert_eq!(capped.get_current_offset(), 8);
    assert_eq!(capped.get_stats(), (1, 1_000_000, true));
    let mut thirds = DiscretionaryManager::new(3, 100);
    thirds.set_threshold(300_000);
    assert_eq!(thirds.calculate_discretionary_price(0, true, 400_000), 4);
}

#[test]
fn test_dynamic_clip() {
    let mut adjuster = DynamicClipAdjuster::new(100_000, 1_000_000, 60000);
    let clip = adjuster.calculate_optimal_clip(500_000, 30_000_000, 10_000_000);
    assert!(clip > 100_000);
    assert_eq!(clip, 300_000);
    assert_eq!(adjuster.get_fill_rate(), 1_000_000);
}

#[test]
fn clips_follow_the_pace() {
    let mut fast = DynamicClipAdjuster::default();
    assert_eq!(fast.calculate_optimal_clip(1, 0, 1), 100_000);
    assert_eq!(fast.calculate_optimal_clip(100, 1, 1_000_000_000), 500_000);
    let mut on_track = DynamicClipAdjuster::new(100, 300, 1000);
    on_track.set_adaptation_speed(1_000_000);
    assert_eq!(on_track.adaptation_speed, 500_000);
    assert_eq!(on_track.calculate_optimal_clip(70, 1, 2_000_000), 200);
}

#[test]
fn test_reserve_manager() {
    let mut manager = ReserveOrderManager::new(5, 100_000);
    let mut order = manager.create_reserve_order(1, 1_000_000, 100_000, 50000, true);
    assert_eq!(order.display_qty, 100_000);
    manager.process_fill(&mut order, 100_000, 1000);
    let (_, fills, volume, _) = manager.get_stats();
    assert_eq!(fills, 1);
    assert_eq!(volume, 100_000);
}

#[test]
fn a_disabled_manager_takes_no_fill() {
    let mut manager = ReserveOrderManager::default();
    let mut order = manager.create_reserve_order(1, 1_000_000, 500_000, 50000, true);
    assert_eq!(order.display_qty, 500_000);
    manager.set_enabled(false);
    manager.process_fill(&mut order, 10, 1);
    assert_eq!(order.filled_qty, 0);
    manager.set_enabled(true);
    manager.process_fill(&mut order, 2_000_000, 1);
    assert_eq!(manager.get_stats(), (0, 1, 1_000_000, true));
    assert_eq!(manager.get_discretionary_price(100, true, 500_000, None), 100);
    assert_eq!(manager.get_discretionary_price(100, true, 750_000, None), 107);
    assert_eq!(manager.get_discretionary_price(100, false, -9_000_000, Some(20)), 60);
}

#[test]
fn test_midprice_peg() {
    let mut manager = PeggedOrderManager::new(1);
    let mut order = manager.create_pegged_order(1, PegType::MidPrice, -5, 0, 0, 1000000, true);
    let price = manager.calculate_pegged_price(&mut order, 50000, 49990, 50010, 0, 1000000);
    assert_eq!(price, 49995);
    assert!(order.is_active);
}

#[test]
fn pegged_prices_do_not_cross() {
    let mut manager = PeggedOrderManager::new(10);
    let mut buy = manager.create_pegged_order(1, PegType::BestAsk, 5, 0, 0, 1, true);
    assert_eq!(manager.calculate_pegged_price(&mut buy, 100, 90, 110, 0, 1), 100);
    let mut sell = manager.create_pegged_order(2, PegType::BestBid, 0, 0, 0, 1, false);
    assert_eq!(manager.calculate_pegged_price(&mut sell, 100, 90, 110, 0, 1), 100);
    let mut bounded = manager.create_pegged_order(3, PegType::PrimaryPeg, 0, 105, 0, 1, true);
    assert_eq!(manager.calculate_pegged_price(&mut bounded, 100, 90, 110, 50, 1), 105);
    let mut lost = manager.create_pegged_order(4, PegType::MidPrice, 0, 200, 0, 1, true);
    assert_eq!(manager.calculate_pegged_price(&mut lost, 100, 90, 110, 0, 1), 0);
    assert!(!lost.is_active);
    assert_eq!(manager.get_stats(), (3, 3, 1, true));
}

#[test]
fn only_moves_beyond_a_tick_are_told() {
    let mut manager = PeggedOrderManager::default();
    let mut order = manager.create_pegged_order(1, PegType::MidPrice, 0, 0, 0, 1, true);
    assert_eq!(manager.update_on_market_move(&mut order, 100, 90, 110, 0, 1), Some(100));
    assert_eq!(manager.update_on_market_move(&mut order, 101, 90, 110, 0, 2), None);
    assert_eq!(order.current_price, 101);
    assert_eq!(manager.update_on_market_move(&mut order, 103, 90, 110, 0, 3), Some(103));
    manager.cancel_order(&mut order);
    assert_eq!(manager.update_on_market_move(&mut order, 110, 90, 120, 0, 4), None);
    manager.set_tick_size(5);
    manager.set_enabled(false);
    assert_eq!(manager.get_stats(), (0, 3, 0, false));
}

#[test]
fn test_discretionary_order() {
    let mut order = DiscretionaryOrder::new(100000, 900000, 2);
    let price1 = order.get_effective_price(50000, true, 50000);
    assert_eq!(price1, 50000);
    let price2 = order.get_effective_price(50000, true, 200000);
    assert_eq!(price2, 50002);
}

#[test]
fn a_discretionary_order_draws_on_its_reserve() {
    let mut order = DiscretionaryOrder::new(100, 300, 2);
    assert_eq!(order.fill(350), 350);
    assert_eq!(order.remaining(), 50);
    assert_eq!(order.visible_qty(), 50);
    assert_eq!(order.reserve_qty, 250);
    assert_eq!(order.fill(350), 50);
    assert!(order.is_filled());
    order.update_discretion(1_000_000, 10);
    assert_eq!(order.discretionary_offset, 15);
    order.set_trigger_threshold(5);
    assert_eq!(order.get_effective_price(100, false, -6), 85);
}

#[test]
fn test_reserve_clip_calculation() {
    let manager = ClipManager::new(100000, 10000, 500000);
    let clip = manager.calculate_clip(amt(0.02), amt(10.0), 5000000);
    assert!(clip >= 10000);
    assert!(clip <= 500000);
    assert_eq!(clip, 128036);
    assert_eq!(manager.calculate_clip(amt(0.0), amt(100.0), 0), 50000);
    assert_eq!(manager.calculate_clip(amt(0.0), amt(10000.0), 0), 10000);
    assert_eq!(manager.calculate_clip(amt(100.0), amt(0.0), 1_000_000), 500000);
    let mut m = manager;
    m.set_vol_adjustment(1);
    assert_eq!(m.get_vol_adjustment(), 100_000);
}

fn imbalance(ratio: f64) -> OrderBookImbalance {
    OrderBookImbalance {
        bid_volume: amt(100.0),
        ask_volume: amt(50.0),
        imbalance_ratio: amt(ratio),
        weighted_imbalance: amt(0.25),
    }
}

#[test]
fn test_adaptive_executor() {
    let mut executor = AdaptiveExecutor::new(amt(10.0), amt(50000.0), true, amt(60.0));
    executor.start();
    let strategy = executor.calculate_strategy(
        &imbalance(0.33),
        amt(50000.0),
        amt(10.0),
        amt(0.02),
        executor.alpha_model.alpha,
    );
    assert!(strategy.aggression_level.units >= 0);
    assert!(strategy.aggression_level.units <= 100_000_000);
    assert!(strategy.urgency_score.units >= 0);
    assert!(strategy.urgency_score.units <= 100_000_000);
    assert_eq!(strategy.urgency_score, amt(0.35375));
    assert_eq!(strategy.order_type, ExecutionOrderType::LimitNormal);
    assert_eq!(strategy.price_offset_bps, 0);
    assert_eq!(strategy.expected_slippage_bps, amt(5.1));
}

#[test]
fn an_alpha_ages_until_it_is_replaced() {
    let mut model = AlphaDecayModel::new(amt(100.0), amt(60.0));
    model.update_age(amt(60.0));
    assert_eq!(model.signal_age_sec, amt(60.0));
    model.set_new_alpha(amt(20.0));
    assert_eq!(model.alpha, amt(20.0));
    assert_eq!(model.signal_age_sec, amt(0.0));
}

#[test]
fn test_cvd_tracker() {
    let mut cvd = CvdTracker::new();
    cvd.record_trade(amt(10.0), true);
    cvd.record_trade(amt(5.0), false);
    cvd.record_trade(amt(15.0), true);
    assert_eq!(cvd.get_cvd(), amt(20.0));
    assert!(cvd.get_normalized_cvd().units > 0);
}

#[test]
fn the_delta_has_a_rate() {
    let mut cvd = CvdTracker::new_at(100);
    cvd.record_trade_at(amt(10.0), true, 104);
    assert_eq!(cvd.get_cvd_rate(), amt(2.5));
    cvd.record_trade_at(amt(10.0), true, 300);
    assert_eq!(cvd.get_cvd_rate(), amt(2.5));
    cvd.reset();
    assert_eq!(cvd.get_cvd(), amt(0.0));
    assert_eq!(cvd.get_normalized_cvd(), amt(0.0));
}

#[test]
fn test_impl_shortfall_calculation() {
    let mut executor = AdaptiveExecutor::new(amt(10.0), amt(50000.0), true, amt(60.0));
    executor.start();
    executor.record_fill(amt(5.0), amt(50050.0));
    let shortfall = executor.get_impl_shortfall_bps();
    assert!(shortfall.units > 0);
    assert_eq!(shortfall, amt(10.0));
    executor.record_fill(amt(5.0), amt(49950.0));
    assert_eq!(executor.avg_price, amt(50000.0));
    assert_eq!(executor.get_impl_shortfall_bps(), amt(0.0));
    let status = executor.get_status(amt(50.0));
    assert_eq!(status.progress_pct, amt(100.0));
    assert_eq!(status.remaining_quantity, amt(0.0));
}

#[test]
fn an_imbalance_counts_the_first_levels() {
    let bids = [(amt(10.0), amt(6.0)), (amt(9.0), amt(4.0)), (amt(8.0), amt(100.0))];
    let asks = [(amt(11.0), amt(2.0))];
    let r = calculate_orderbook_imbalance(&bids, &asks, 2);
    assert_eq!(r.bid_volume.units, 1_000_000_000);
    assert_eq!(r.imbalance_ratio, amt(0.66666666));
    assert_eq!(r.weighted_imbalance, amt(0.6));
    let none = calculate_orderbook_imbalance(&[], &[], 5);
    assert_eq!(none.imbalance_ratio, amt(0.0));
}

#[test]
fn test_dynamic_iceberg() {
    let mut iceberg = DynamicIceberg::new(amt(100.0), amt(10.0), amt(5.0), amt(20.0), true);
    iceberg.start();
    assert_eq!(iceberg.get_display_quantity(), amt(10.0));
    iceberg.record_fill(amt(10.0));
    let status = iceberg.get_status();
    assert_eq!(status.clips_executed, 1);
    assert_eq!(status.hidden_remaining, amt(80.0));
}

fn level(price: f64, quantity: f64, order_count: u32) -> OrderBookLevel {
    OrderBookLevel { price: amt(price), quantity: amt(quantity), order_count }
}

fn book() -> OrderBookSnapshot {
    OrderBookSnapshot {
        bids: vec![level(49999.0, 50.0, 2), level(49998.0, 100.0, 1)],
        asks: vec![level(50001.0, 45.0, 3), level(50002.0, 80.0, 1)],
        timestamp_ns: 0,
        spread: amt(2.0),
        mid_price: amt(50000.0),
    }
}

#[test]
fn clips_are_sized_by_depth_and_rate() {
    let mut iceberg = DynamicIceberg::new(amt(100.0), amt(10.0), amt(5.0), amt(20.0), true);
    iceberg.adjust_visible_size(&book(), amt(50002.0));
    assert_eq!(iceberg.visible_size, amt(16.0));
    iceberg.record_fill_at(amt(1.0), 1_000_000_000);
    assert_eq!(iceberg.fill_rate, amt(0.0));
    iceberg.record_fill_at(amt(1.0), 2_000_000_000);
    assert_eq!(iceberg.fill_rate, amt(0.3));
    iceberg.adjust_based_on_fill_rate(amt(0.1));
    assert_eq!(iceberg.visible_size, amt(12.8));
    iceberg.adjust_based_on_fill_rate(amt(1.0));
    assert_eq!(iceberg.visible_size, amt(15.36));
    assert!(!iceberg.is_complete());
    assert_eq!(iceberg.get_remaining(), amt(98.0));
}

#[test]
fn test_liquidity_detector() {
    let mut detector = HiddenLiquidityDetector::new(10);
    detector.add_orderbook_snapshot(book());
    let signals = detector.detect_hidden_liquidity(&book());
    assert_eq!(signals.len(), 4);
    assert_eq!(signals[0].detection_method, HiddenLiquidityMethod::SizeAnomaly);
    assert_eq!(signals[0].confidence, amt(0.25));
    assert_eq!(signals[0].estimated_hidden_qty, amt(25.0));
    assert_eq!(detector.get_strongest_signal().unwrap().confidence, amt(1.0));
}

#[test]
fn refreshed_levels_and_one_sided_flow_are_signs() {
    let mut detector = HiddenLiquidityDetector::new(10);
    let calm = OrderBookSnapshot {
        bids: vec![level(99.0, 5.0, 9)],
        asks: vec![],
        timestamp_ns: 0,
        spread: amt(2.0),
        mid_price: amt(100.0),
    };
    for _ in 0..5 {
        detector.add_orderbook_snapshot(calm.clone());
    }
    for i in 0..10 {
        detector.add_trade_flow(TradeFlowRecord {
            timestamp_ns: i,
            price: amt(100.0),
            quantity: amt(1.0),
            aggressor_side: if i < 9 { AggressorSide::Buy } else { AggressorSide::Sell },
        });
    }
    let signals = detector.detect_hidden_liquidity(&calm);
    assert_eq!(signals.len(), 2);
    assert_eq!(signals[0].detection_method, HiddenLiquidityMethod::RefreshDetection);
    assert_eq!(signals[0].confidence, amt(0.8));
    assert_eq!(signals[0].estimated_hidden_qty, amt(20.0));
    assert_eq!(signals[1].detection_method, HiddenLiquidityMethod::OrderFlowImbalance);
    assert!(!signals[1].is_buy_side);
    assert_eq!(signals[1].confidence, amt(0.8));
    assert_eq!(signals[1].estimated_hidden_qty, amt(4.0));
    detector.clear();
    assert!(detector.get_strongest_signal().is_none());
}

#[test]
fn test_twap_execution() {
    let mut twap = TwapExecutor::new(amt(10.0), 60, 10);
    twap.start();
    assert!(twap.should_execute_slice());
    let qty = twap.get_next_slice_quantity();
    assert_eq!(qty, amt(1.0));
    twap.record_slice_execution(qty);
    let status = twap.get_status();
    assert_eq!(status.slices_completed, 1);
    assert_eq!(status.progress_pct, amt(10.0));
}

#[test]
fn slices_wait_for_their_interval() {
    let mut twap = TwapExecutor::new_at(amt(10.0), 60, 4, 0);
    assert!(!twap.should_execute_slice_at(1));
    twap.start_at(0);
    twap.record_slice_execution_at(amt(9.0), 1_000_000_000);
    assert!(!twap.should_execute_slice_at(15_999_000_000));
    assert!(twap.should_execute_slice_at(16_000_000_000));
    assert_eq!(twap.get_next_slice_quantity(), amt(1.0));
    let status = twap.get_status_at(9_000_000_000);
    assert_eq!(status.estimated_completion_ns, 10_000_000_000);
    twap.update_total_quantity(amt(8.0));
    assert!(!twap.should_execute_slice_at(99_000_000_000));
    assert_eq!(twap.get_next_slice_quantity(), amt(0.0));
    twap.stop();
}

#[test]
fn test_vwap_with_profile() {
    let profile = vec![amt(0.1), amt(0.2), amt(0.3), amt(0.2), amt(0.2)];
    let mut vwap = VwapExecutor::new(amt(10.0), 300, profile);
    vwap.start();
    let target = vwap.get_bucket_target();
    assert_eq!(target, amt(1.0));
    vwap.advance_bucket();
    let status = vwap.get_status();
    assert_eq!(status.slices_completed, 1);
}

#[test]
fn executions_follow_the_profile() {
    let mut vwap = VwapExecutor::new_at(amt(10.0), 300, vec![amt(1.0), amt(3.0)], 0);
    assert!(!vwap.should_execute_slice(amt(1.0), amt(1.0)));
    vwap.start_at(0);
    assert_eq!(vwap.get_bucket_target(), amt(2.5));
    assert!(vwap.should_execute_slice(amt(1.0), amt(1.0)));
    assert!(!vwap.should_execute_slice(amt(1.0), amt(0.0)));
    vwap.record_slice_execution(amt(2.5));
    assert!(!vwap.should_execute_slice(amt(1.0), amt(1.0)));
    vwap.advance_bucket();
    assert_eq!(vwap.get_bucket_target(), amt(5.625));
    assert!(vwap.should_execute_slice(amt(1.0), amt(1.0)));
    vwap.advance_bucket();
    assert_eq!(vwap.current_bucket, 1);
    assert_eq!(vwap.get_next_slice_quantity(amt(100.0), amt(0.05)), amt(5.0));
    assert_eq!(vwap.get_next_slice_quantity(amt(1000.0), amt(0.05)), amt(7.5));
}

#[test]
fn test_iceberg_order() {
    let mut iceberg = IcebergOrder::new(amt(100.0), amt(10.0));
    iceberg.start();
    let visible = iceberg.get_visible_size();
    assert_eq!(visible, amt(10.0));
    iceberg.record_fill(amt(10.0));
    let visible_after = iceberg.get_visible_size();
    assert_eq!(visible_after, amt(10.0));
    assert_eq!(iceberg.clips_executed, 1);
}

#[test]
fn an_iceberg_ends_with_its_hidden_part() {
    let mut iceberg = IcebergOrder::new(amt(15.0), amt(10.0));
    iceberg.record_fill(amt(10.0));
    assert_eq!(iceberg.clip_remaining, amt(5.0));
    iceberg.record_fill(amt(5.0));
    assert_eq!(iceberg.clip_remaining, amt(0.0));
    assert!(iceberg.is_complete());
    assert_eq!(iceberg.get_remaining(), amt(0.0));
    iceberg.adjust_visible_size(amt(10.0), amt(50.0));
    assert_eq!(iceberg.visible_size, amt(5.0));
    iceberg.adjust_visible_size(amt(10.0), amt(5.0));
    assert_eq!(iceberg.visible_size, amt(1.0));
    iceberg.adjust_visible_size(amt(10.0), amt(500.0));
    assert_eq!(iceberg.visible_size, amt(10.0));
}

#[test]
fn nothing_is_hidden_once_all_is_filled() {
    let mut order = ReserveOrder::new(1, 1_000_000, 100_000, 50000, true);
    assert_eq!(order.fill(1_000_000, 1), 1_000_000);
    assert_eq!(order.remaining(), 0);
    assert!(!order.has_hidden());
    assert_eq!(order.hidden_qty, 0);
}

#[test]
fn an_order_out_of_bounds_is_no_longer_counted() {
    let mut manager = PeggedOrderManager::new(1);
    let mut order = manager.create_pegged_order(1, PegType::BestAsk, 0, 100, 0, 10, true);
    assert_eq!(manager.get_stats().0, 1);
    assert_eq!(manager.calculate_pegged_price(&mut order, 100, 99, 100, 0, 7), 0);
    assert!(!order.is_active);
    assert_eq!(manager.get_stats(), (0, 0, 1, true));
    manager.cancel_order(&mut order);
    assert_eq!(manager.get_stats().0, 0);
}

#[test]
fn fills_are_averaged_whatever_their_sign() {
    let mut executor = AdaptiveExecutor::new(amt(-10.0), amt(-100.0), true, amt(60.0));
    executor.record_fill(amt(4.0), amt(-90.0));
    assert_eq!(executor.avg_price, amt(-90.0));
    assert_eq!(executor.get_impl_shortfall_bps(), amt(-1000.0));
    executor.record_fill(amt(-2.0), amt(10.0));
    assert_eq!(executor.executed_quantity, amt(2.0));
    assert_eq!(executor.avg_price, amt(-190.0));
    assert_eq!(executor.get_remaining(), amt(-12.0));
}

#[test]
fn orders_of_any_sign_are_sliced() {
    let mut twap = TwapExecutor::new_at(amt(-10.0), 60, 4, 0);
    assert_eq!(twap.slice_quantity, amt(-2.5));
    assert_eq!(twap.get_next_slice_quantity(), amt(0.0));
    twap.record_slice_execution_at(amt(-5.0), 7);
    let status = twap.get_status_at(10);
    assert_eq!(status.slices_completed, 2);
    assert_eq!(status.remaining_quantity, amt(-5.0));
    assert_eq!(status.progress_pct, amt(0.0));
    twap.update_total_quantity(amt(8.0));
    assert_eq!(twap.get_status_at(10).slices_completed, 0);
    twap.record_slice_execution_at(Amount { units: i64::MIN }, 8);
    assert_eq!(twap.executed_quantity.units, i64::MIN);
    assert_eq!(twap.get_status_at(10).remaining_quantity.units, i64::MAX);
    let mut vwap = VwapExecutor::new_at(amt(-8.0), 300, vec![amt(1.0), amt(3.0)], 0);
    vwap.start_at(1);
    assert_eq!(vwap.get_bucket_target(), amt(-2.0));
    vwap.record_slice_execution(amt(-9.0));
    assert!(!vwap.should_execute_slice(amt(1.0), amt(1.0)));
}

#[test]
fn clips_of_any_sign_follow_the_depth() {
    let mut iceberg = IcebergOrder::new(amt(100.0), amt(10.0));
    iceberg.adjust_visible_size(amt(10.0), amt(30.0));
    assert_eq!(iceberg.visible_size, amt(3.0));
    iceberg.adjust_visible_size(amt(-10.0), amt(-30.0));
    assert_eq!(iceberg.visible_size, amt(-3.0));
    iceberg.adjust_visible_size(amt(-10.0), amt(30.0));
    assert_eq!(iceberg.visible_size, amt(-1.0));
    iceberg.adjust_visible_size(amt(0.0), amt(30.0));
    assert_eq!(iceberg.visible_size, amt(0.0));
}

#[test]
fn a_benchmark_of_zero_is_missed_without_bound() {
    let mut executor = AdaptiveExecutor::new(amt(10.0), amt(0.0), true, amt(60.0));
    executor.record_fill(amt(1.0), amt(5.0));
    assert_eq!(executor.get_impl_shortfall_bps().units, i64::MAX);
    let mut executor = AdaptiveExecutor::new(amt(10.0), amt(0.0), false, amt(60.0));
    executor.record_fill(amt(1.0), amt(5.0));
    assert_eq!(executor.get_impl_shortfall_bps().units, i64::MIN);
}
