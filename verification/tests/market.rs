use std::time::{SystemTime, UNIX_EPOCH};
use trading_core::base::amount::Amount;
use trading_core::hedging::hedge_executor::{
    DeltaTracker, HedgeExecutor, HedgeOrder, HedgeOrderBuffer, HedgeSignal, OrderType, Side,
};
use trading_core::macro_events::event_calendar::{
    CalendarBuilder, EventCalendar, EventType, ImpactLevel, MacroEvent,
};
use trading_core::market_making::cancellation_manager::{
    BatchCancelRequest, CancellationManager, CancellationReason,
};
use trading_core::market_making::spread_optimizer::SpreadOptimizer;
use trading_core::market_making::tick_quoter::{BatchQuoter, TickQuoter};

fn amt(x: f64) -> Amount {
    Amount { units: (x * 1e8).round() as i64 }
}

#[test]
fn test_impact_levels() {
    assert_eq!(ImpactLevel::Critical.halt_duration_ms(), 120000);
    assert_eq!(ImpactLevel::High.halt_duration_ms(), 30000);
    assert_eq!(EventType::NonFarmPayrolls.default_impact(), ImpactLevel::Critical);
    assert_eq!(EventType::CPIRelease.default_impact(), ImpactLevel::Critical);
}

fn now_ms() -> u64 {
    SystemTime::now().duration_since(UNIX_EPOCH).unwrap().as_millis() as u64
}

#[test]
fn test_event_scheduling_and_risk_off() {
    let mut calendar: EventCalendar<i64> = EventCalendar::new(100);
    let now = now_ms();
    // A critical event further away than its halt, which starts two minutes
    // before it.
    let event = MacroEvent::new(
        EventType::CPIRelease,
        now + 180000,
        "CPI Release".to_string(),
        "USD".to_string(),
    );
    assert_eq!(event.halt_start_ms(), now + 180000 - 120000);
    calendar.schedule_event(event);
    let status = calendar.update_risk_status();
    assert!(!status.is_risk_off);
}

#[test]
fn trading_halts_two_minutes_before_a_critical_event() {
    let mut calendar: EventCalendar<i64> = EventCalendar::new(100);
    let now = now_ms();
    calendar.schedule_event(event(EventType::CPIRelease, now + 60000));
    let status = calendar.update_risk_status();
    assert!(status.is_risk_off);
    assert_eq!(status.halt_end_ms, now + 60000 + 60000);
}

fn event(kind: EventType, at: u64) -> MacroEvent<i64> {
    MacroEvent::new(kind, at, "x".to_string(), "USD".to_string())
}

#[test]
fn a_halt_begins_before_its_event_and_ends_after_it() {
    let mut calendar: EventCalendar<i64> = EventCalendar::new(10);
    calendar.schedule_event_at(event(EventType::GDPRelease, 1_000_000), 969_999);
    assert!(!calendar.update_risk_status_at(969_999).is_risk_off);
    calendar.schedule_event_at(event(EventType::GDPRelease, 1_000_000), 970_000);
    let status = calendar.update_risk_status_at(970_000);
    assert!(status.is_risk_off);
    assert!(status.should_halt_trading());
    assert_eq!(status.halt_end_ms, 1_015_000);
    assert_eq!(status.seconds_until_resume, 45);
    assert!(calendar.update_risk_status_at(1_014_999).is_risk_off);
    assert!(!calendar.update_risk_status_at(1_015_000).is_risk_off);
}

#[test]
fn a_critical_event_announces_a_spike_until_processed() {
    let mut calendar: EventCalendar<i64> = EventCalendar::new(10);
    calendar.schedule_event_at(event(EventType::CPIRelease, 1_000_000), 0);
    calendar.schedule_event_at(event(EventType::FOMCDecision, 900_000), 0);
    calendar.schedule_event_at(event(EventType::RetailSales, 800_000), 0);
    assert!(calendar.update_risk_status_at(0).volatility_spike);
    assert_eq!(calendar.get_upcoming_events_at(900_000, 0).len(), 2);
    let next = calendar.get_next_critical_event_at(0).unwrap();
    assert_eq!(next.event_type, EventType::FOMCDecision);
    calendar.mark_processed(EventType::FOMCDecision, 900_000);
    assert!(!calendar.update_risk_status_at(0).volatility_spike);
    let next = calendar.get_next_critical_event_at(0).unwrap();
    assert_eq!(next.event_type, EventType::CPIRelease);
    assert_eq!(calendar.get_upcoming_events_at(900_000, 0).len(), 1);
}

#[test]
fn a_full_calendar_forgets_the_oldest_event() {
    let mut calendar: EventCalendar<i64> = EventCalendar::new(2);
    for i in 0..3 {
        calendar.schedule_event_at(event(EventType::Other, 100 + i), 0);
    }
    assert_eq!(calendar.events.len(), 2);
    assert_eq!(calendar.events[0].timestamp_ms, 101);
    calendar.subscribe_currency("GBP".to_string());
    calendar.subscribe_currency("USD".to_string());
    assert_eq!(calendar.subscribed_currencies, vec!["USD", "EUR", "GBP"]);
}

#[test]
fn a_builder_fills_a_calendar() {
    let mut calendar: EventCalendar<i64> = EventCalendar::new(10);
    let mut builder: CalendarBuilder<i64> = CalendarBuilder::new();
    builder
        .add_nfp(4_000_000_000_000)
        .add_fomc(4_000_000_000_001)
        .add_cpi(4_000_000_000_002);
    builder.build(&mut calendar);
    assert_eq!(calendar.events.len(), 3);
    assert_eq!(calendar.events[0].description, "Non-Farm Payrolls");
    assert_eq!(calendar.events[1].description, "FOMC Rate Decision");
    assert_eq!(calendar.events[2].description, "Consumer Price Index");
    assert!(!calendar.update_risk_status().is_risk_off);
    assert!(calendar.get_next_critical_event().is_some());
    calendar.clear_volatility_spike();
    assert!(!calendar.update_risk_status().volatility_spike);
}

#[test]
fn test_cancellation_manager_basic() {
    let mgr = CancellationManager::new(500, 100);
    assert!(mgr.should_cancel(300, 50_000_000).is_none());
    let reason = mgr.should_cancel(700, 50_000_000);
    assert_eq!(reason, Some(CancellationReason::ToxicFlow));
    let late = mgr.should_cancel(300, 100_000_001);
    assert_eq!(late, Some(CancellationReason::LatencyArbitrage));
}

#[test]
fn test_emergency_halt() {
    let mut mgr = CancellationManager::new(500, 100);
    assert!(!mgr.is_halted());
    mgr.emergency_halt_all();
    assert!(mgr.is_halted());
    assert!(!mgr.execute_cancel(CancellationReason::SystemHalt, 1));
    mgr.resume();
    assert!(!mgr.is_halted());
}

#[test]
fn cancellations_are_limited_each_second() {
    let mut mgr = CancellationManager::new(500, 100);
    mgr.max_cancels_per_sec = 2;
    let start = 5_000_000_000;
    assert!(mgr.execute_cancel_at(CancellationReason::ToxicFlow, 10, start));
    assert!(mgr.execute_cancel_at(CancellationReason::LatencyArbitrage, 20, start));
    assert!(!mgr.execute_cancel_at(CancellationReason::ToxicFlow, 30, start));
    assert!(mgr.should_cancel(900, 0).is_none());
    assert!(mgr.execute_cancel_at(CancellationReason::ToxicFlow, 60, start + 1_000_000_001));
    let stats = mgr.get_stats();
    assert_eq!(stats.get_total_cancellations(), 3);
    assert_eq!(stats.get_toxic_flow_ratio(), (2, 3));
    assert_eq!(stats.avg_latency_ns, 30);
    assert_eq!(stats.last_cancel_ns, start + 1_000_000_001);
    let mut batch = BatchCancelRequest::new(CancellationReason::ManualOverride);
    assert!(batch.is_empty());
    batch.add_order(1);
    assert_eq!(batch.len(), 1);
}

#[test]
fn test_basic_spread() {
    let mut opt = SpreadOptimizer::new(10, 1);
    let spread = opt.calculate_optimal_spread(10000);
    assert_eq!(spread, 10);
}

#[test]
fn test_inventory_skew() {
    let mut opt = SpreadOptimizer::new(10, 5);
    opt.update_inventory(1000);
    let bid_adj = opt.get_bid_adjustment(10000, 10);
    let ask_adj = opt.get_ask_adjustment(10000, 10);
    assert!(bid_adj > 10);
    assert!(ask_adj <= 10);
    assert_eq!(bid_adj, 15);
    assert_eq!(ask_adj, 8);
}

#[test]
fn spread_optimizer_test_alpha_decay() {
    let mut opt = SpreadOptimizer::new(10, 0);
    opt.update_alpha_decay(500);
    let spread = opt.calculate_optimal_spread(10000);
    assert!(spread > 10);
    assert_eq!(spread, 12);
}

#[test]
fn spreads_stay_between_one_and_a_thousand() {
    let mut opt = SpreadOptimizer::new(0, 0);
    assert_eq!(opt.calculate_optimal_spread(1), 1);
    opt.update_vol_adjustment(u64::MAX);
    assert_eq!(opt.calculate_optimal_spread(1), 1000);
    let mut wide = SpreadOptimizer::new(u64::MAX, u64::MAX);
    wide.update_inventory(i64::MAX);
    assert_eq!(wide.calculate_optimal_spread(1), 1000);
    let mut fast = SpreadOptimizer::new(100, 0);
    fast.update_queue_depletion(2500);
    assert_eq!(fast.calculate_optimal_spread(1), 95);
    fast.update_queue_depletion(100);
    assert_eq!(fast.calculate_optimal_spread(1), 110);
    fast.reset();
    assert_eq!(fast.calculate_optimal_spread(1), 100);
}

#[test]
fn test_tick_quoter_basic() {
    let quoter = TickQuoter::new(10000, 10010, 100);
    assert_eq!(quoter.get_bid(), 10000);
    assert_eq!(quoter.get_ask(), 10010);
    assert!(quoter.is_active());
}

#[test]
fn test_quote_update() {
    let mut quoter = TickQuoter::new(10000, 10010, 100);
    quoter.update_quote(10000, 10, 50, 60);
    assert!(quoter.get_bid() <= 10000);
    assert!(quoter.get_ask() >= 10000);
    assert_eq!(quoter.get_spread_bps(), 10);
    assert_eq!(quoter.quote_for_side(true), 9995);
    assert_eq!(quoter.quote_for_side(false), 10005);
    assert!(quoter.last_update_ns > 0);
}

#[test]
fn levels_stand_one_tick_apart() {
    let mut batch = BatchQuoter::new(3, 100, 5, 60);
    assert_eq!(batch.num_levels(), 3);
    assert_eq!(batch.get_level(1).unwrap().get_bid(), 40);
    assert_eq!(batch.get_level(1).unwrap().get_ask(), 160);
    assert_eq!(batch.get_level(2).unwrap().get_bid(), 0);
    assert!(batch.get_level(3).is_none());
    batch.update_all_levels(20000, 10, 7, 60);
    assert_eq!(batch.get_level(2).unwrap().get_bid(), 19990);
    assert_eq!(batch.get_level(2).unwrap().get_ask(), 20010);
}

fn signal(symbol_id: u32, target: f64) -> HedgeSignal {
    HedgeSignal {
        symbol_id,
        target_delta: amt(target),
        current_delta: amt(0.0),
        timestamp_ns: 1234567890,
    }
}

#[test]
fn test_hedge_executor_basic() {
    let executor = HedgeExecutor::new(amt(0.01), amt(1.0), 10);
    let order = executor.generate_hedge_order(&signal(0, 0.5), 10000);
    assert!(order.is_some());
    let order = order.unwrap();
    assert_eq!(order.side, Side::Buy);
    assert!(order.quantity > 0);
    assert_eq!(order.quantity, 5000);
}

#[test]
fn test_delta_tracker() {
    let mut tracker = DeltaTracker::new();
    tracker.update(100);
    tracker.update(-50);
    assert_eq!(tracker.get_net_delta(), 50);
    assert_eq!(tracker.get_gross_delta(), 150);
}

#[test]
fn a_portfolio_is_rebalanced() {
    let mut executor = HedgeExecutor::new(amt(0.01), amt(300.0), 10);
    let signals = vec![signal(0, 0.5), signal(1, -0.1), signal(1, 0.0001), signal(9, 1.0)];
    let orders = executor.rebalance_portfolio(&signals, &[100, 200]);
    assert_eq!(orders.len(), 2);
    assert_eq!(orders[0].quantity, 4800);
    assert_eq!(orders[1].side, Side::Sell);
    assert_eq!(orders[1].quantity, 900);
    assert_eq!(orders[1].price_ticks, 200);
    assert_eq!(executor.get_net_exposure(), 3900);
    assert!(executor.check_risk_limits(5700));
    assert!(!executor.check_risk_limits(5699));
}

#[test]
fn a_buffer_holds_sixty_four_orders() {
    let order = HedgeOrder {
        symbol_id: 1,
        side: Side::Buy,
        quantity: 1,
        price_ticks: 1,
        order_type: OrderType::Limit,
        timestamp_ns: 0,
    };
    let mut buffer = HedgeOrderBuffer::default();
    for _ in 0..64 {
        assert!(buffer.push(order));
    }
    assert!(!buffer.push(order));
    assert_eq!(buffer.drain().len(), 64);
    assert_eq!(buffer.len(), 0);
    assert!(buffer.push(order));
    buffer.clear();
    assert_eq!(buffer.len(), 0);
}

#[test]
fn impact_raises_expected_volatility() {
    assert_eq!(ImpactLevel::Low.expected_volatility_multiplier(), amt(1.0));
    assert_eq!(ImpactLevel::Medium.expected_volatility_multiplier(), amt(1.5));
    assert_eq!(ImpactLevel::High.expected_volatility_multiplier(), amt(3.0));
    assert_eq!(ImpactLevel::Critical.expected_volatility_multiplier(), amt(8.0));
}
