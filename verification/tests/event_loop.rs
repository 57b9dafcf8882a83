use std::time::{SystemTime, UNIX_EPOCH};
use trading_core::event_loop::clock_sync::{ClockSyncConfig, ClockSynchronizer};
use trading_core::event_loop::main_loop::{
    Event, EventLoopConfig, EventTurn, EventType, LoopPass, MainEventLoop, OrderDispatch,
    RiskCheckResult, SignalAction, StrategySignal,
};
use trading_core::event_loop::telemetry_injector::{
    parse_memory_usage_mb, summarise, MetricRingBuffer, MetricSample, TelemetryConfig,
    TelemetryInjector,
};

#[test]
fn test_clock_sync_basic() {
    let config = ClockSyncConfig {
        ntp_servers: vec!["pool.ntp.org".to_string()],
        exchange_time_endpoint: None,
        sync_interval_sec: 60,
        max_offset_ns: 100_000,
        samples_per_sync: 4,
        enable_ptp: false,
    };
    let mut sync = ClockSynchronizer::new(config);
    assert_eq!(sync.get_offset_ns(), 0);
    let result = sync.sync_once();
    assert!(result.is_ok());
    let result = result.unwrap();
    assert!(result.sample_count > 0);
    assert!(result.jitter_ns < 100_000_000);
}

#[test]
fn test_synced_timestamp() {
    let sync = ClockSynchronizer::default();
    let local_ts = sync.get_synced_timestamp_ns();
    assert!(local_ts > 0);
    let expected_ts = SystemTime::now()
        .duration_since(UNIX_EPOCH)
        .unwrap()
        .as_nanos() as u64;
    let diff = local_ts.abs_diff(expected_ts);
    assert!(diff < 1_000_000_000);
}

#[test]
fn equal_samples_give_their_offset_without_jitter() {
    let mut sync = ClockSynchronizer::default();
    let samples: Vec<(i64, u64)> = vec![(500, 10), (500, 10), (500, 10)];
    let result = sync.apply_samples(&samples, 77).unwrap();
    assert_eq!(result.offset_ns, 500);
    assert_eq!(result.jitter_ns, 0);
    assert_eq!(result.sample_count, 3);
    assert_eq!(sync.get_offset_ns(), 500);
    assert_eq!(sync.get_synced_timestamp_at(1000), 500);
    assert!(result.is_accurate(500));
    assert!(!result.is_accurate(499));
}

#[test]
fn no_samples_is_an_error() {
    let mut sync = ClockSynchronizer::default();
    let samples: Vec<(i64, u64)> = Vec::new();
    assert!(sync.apply_samples(&samples, 1).is_err());
    assert_eq!(sync.get_offset_ns(), 0);
}

fn passing_turn(risk: RiskCheckResult) -> EventTurn {
    EventTurn {
        signal: Some(StrategySignal {
            symbol_id: 1,
            side: 1,
            quantity: 100,
            confidence: 9000,
            timestamp_ns: 0,
        }),
        risk,
        dispatch: OrderDispatch {
            order_id: 1,
            symbol_id: 1,
            filled: true,
            fill_price_ticks: 50000,
            fill_quantity: 100,
            latency_ns: 100,
        },
        order_latency_ns: 100,
        event_latency_ns: 10,
    }
}

#[test]
fn test_event_loop_basic() {
    let config = EventLoopConfig::default();
    let mut loop_instance = MainEventLoop::new(config);
    let max_ticks = 100u64;
    let mut passes: Vec<LoopPass> = Vec::new();
    for i in 0..max_ticks {
        passes.push(LoopPass { event: Some(passing_turn(RiskCheckResult::Pass)), now_us: i });
    }
    loop_instance.run(&passes);
    assert_eq!(loop_instance.state.tick_count, max_ticks);
    assert_eq!(loop_instance.state.signal_count, max_ticks);
    assert_eq!(loop_instance.state.order_count, max_ticks);
}

#[test]
fn a_failed_check_stops_its_order() {
    let mut instance = MainEventLoop::new(EventLoopConfig::default());
    let passes: Vec<LoopPass> = vec![
        RiskCheckResult::Pass,
        RiskCheckResult::FailExposureLimit,
        RiskCheckResult::FailMarginRequirement,
    ]
    .into_iter()
    .map(|risk| LoopPass { event: Some(passing_turn(risk)), now_us: 5 })
    .collect();
    instance.run(&passes);
    assert_eq!(instance.state.tick_count, 3);
    assert_eq!(instance.state.signal_count, 3);
    assert_eq!(instance.state.order_count, 1);
}

#[test]
fn every_signal_is_checked() {
    let mut instance = MainEventLoop::new(EventLoopConfig::default());
    for _ in 0..250 {
        let signal = passing_turn(RiskCheckResult::Pass).signal;
        assert_eq!(instance.on_event(signal), SignalAction::CheckRisk);
    }
    assert!(instance.on_risk(RiskCheckResult::Pass));
    assert!(!instance.on_risk(RiskCheckResult::FailRateLimit));
}

#[test]
fn a_run_beats_and_ends_stopped() {
    let mut config = EventLoopConfig::default();
    config.heartbeat_interval_ms = 3;
    let mut instance = MainEventLoop::new(config);
    let passes: Vec<LoopPass> = (1..=7).map(|t| LoopPass { event: None, now_us: t }).collect();
    instance.run(&passes);
    assert_eq!(instance.state.last_heartbeat, 6);
    assert_eq!(instance.heartbeat_counter, 1);
    assert_eq!(instance.state.tick_count, 0);
    assert!(!instance.state.is_running);
}

#[test]
fn an_event_without_signal_asks_for_nothing() {
    let mut instance = MainEventLoop::new(EventLoopConfig::default());
    assert_eq!(instance.on_event(None), SignalAction::Nothing);
    assert_eq!(instance.state.tick_count, 1);
    assert_eq!(instance.state.signal_count, 0);
}

#[test]
fn events_carry_their_code() {
    let event = Event::new(EventType::Heartbeat, 7, 42);
    assert_eq!(event.event_type, EventType::Heartbeat.to_code());
    assert_eq!(event.symbol_id, 7);
    assert_eq!(event.timestamp_ns, 42);
}

fn sample(i: u64, latency: u32) -> MetricSample {
    MetricSample {
        tick_id: i,
        timestamp_ns: i * 1000,
        latency_ns: latency,
        queue_depth: 10,
        memory_used_mb: 1000,
        flags: 0,
        strategy_id: 1,
    }
}

#[test]
fn test_metric_ring_buffer() {
    let mut buffer = MetricRingBuffer::new(1024);
    for i in 0..2000 {
        buffer.push(sample(i, 100));
    }
    assert!(buffer.fill_level() > 0);
    assert!(buffer.fill_level() <= 1024);
}

#[test]
fn test_telemetry_injector() {
    let config = TelemetryConfig {
        sample_interval_ticks: 10,
        buffer_capacity: 4096,
        stats_interval_ms: 100,
        enable_memory_tracking: false,
    };
    let mut injector = TelemetryInjector::new(config);
    injector.start_stats_at(0);
    for i in 0..1000u32 {
        injector.record_tick(100 + (i % 50), 10, 1, 0);
    }
    injector.update_stats_at(200_000_000);
    let stats = injector.get_stats();
    assert!(stats.sample_count > 0);
    assert!(stats.latency_sum_ns > 0);
    injector.stop();
}

#[test]
fn percentiles_rise() {
    let mut samples: Vec<MetricSample> = Vec::new();
    for i in 0..100u64 {
        samples.push(sample(i, (100 - i) as u32));
    }
    let stats = summarise(&samples, 100, 0, 1_000_000_000);
    assert_eq!(stats.min_latency_ns, 1);
    assert_eq!(stats.max_latency_ns, 100);
    assert_eq!(stats.latency_sum_ns, 5050);
    assert!(stats.min_latency_ns <= stats.p50_latency_ns);
    assert!(stats.p50_latency_ns <= stats.p95_latency_ns);
    assert!(stats.p95_latency_ns <= stats.p99_latency_ns);
    assert!(stats.p99_latency_ns <= stats.max_latency_ns);
}

#[test]
fn memory_is_read_from_a_status_text() {
    let status = "Name:\tbot\nVmRSS:\t  204800 kB\nThreads:\t3\n";
    assert_eq!(parse_memory_usage_mb(status), 200);
    assert_eq!(parse_memory_usage_mb("Name:\tbot\n"), 0);
}

#[test]
fn a_ring_without_places_stays_empty() {
    let mut ring = MetricRingBuffer::new(0);
    assert_eq!(ring.fill_level(), 0);
    assert!(ring.read_samples().is_empty());
    let config = TelemetryConfig {
        sample_interval_ticks: 0,
        buffer_capacity: 0,
        stats_interval_ms: 1,
        enable_memory_tracking: false,
    };
    let mut injector = TelemetryInjector::new(config);
    assert!(!injector.update_stats_at(5));
}
