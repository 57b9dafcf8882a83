use trading_core::base::amount::Amount;
use trading_core::imitation::behavioral_cloning::{
    aggressiveness_of, participation_of, BCAction, BCState, BehavioralCloningEngine, ExpertStats,
    HybridExecutor, LearnedAction, LinearLayer,
};
use trading_core::indicators::oscillators::{Stochastic, MACD, RSI};
use trading_core::indicators::trend_volatility::{
    BollingerBands, IchimokuCloud, MultiTimeframeProcessor, ADX, ATR, EMA, SMA,
};
use trading_core::indicators::volume_profile::{VolumeMetrics, VolumeProfile, CVD, VWAP};
use trading_core::indicators::windows::RollingWindow;

fn amt(x: f64) -> Amount {
    Amount { units: (x * 1e8).round() as i64 }
}

#[test]
fn test_vwap() {
    let mut vwap = VWAP::new();
    vwap.update(amt(100.0), amt(98.0), amt(99.0), amt(1000.0));
    vwap.update(amt(101.0), amt(99.0), amt(100.0), amt(500.0));
    assert!(vwap.value().units > 0);
    assert_eq!(vwap.value().units, 9_933_333_333);
    vwap.reset_session();
    assert_eq!(vwap.update(amt(7.0), amt(7.0), amt(7.0), amt(3.0)), amt(7.0));
}

#[test]
fn test_cvd() {
    let mut cvd = CVD::new(100);
    cvd.update(amt(100.0), true);
    cvd.update(amt(50.0), false);
    assert_eq!(cvd.value(), amt(50.0));
    assert_eq!(cvd.net_delta(), amt(50.0));
}

#[test]
fn deltas_are_summed_over_the_latest_trades() {
    let mut cvd = CVD::new(3);
    for i in 1..=5 {
        cvd.update(amt(i as f64), i % 2 == 1);
    }
    assert_eq!(cvd.delta_sum(2), amt(1.0));
    assert_eq!(cvd.delta_sum(10), amt(4.0));
    assert_eq!(cvd.buy_volume(), amt(9.0));
    assert_eq!(cvd.sell_volume(), amt(6.0));
}

#[test]
fn test_volume_profile() {
    let mut vp = VolumeProfile::new(amt(90.0), amt(110.0), amt(1.0), amt(0.70));
    vp.update(amt(100.0), amt(100.0), true);
    vp.update(amt(100.0), amt(200.0), false);
    vp.update(amt(101.0), amt(50.0), true);
    assert!(vp.poc().units > 0);
    assert_eq!(vp.poc(), amt(100.5));
    assert_eq!(vp.val(), amt(100.0));
    assert_eq!(vp.vah(), amt(101.0));
    assert_eq!(vp.total_volume(), amt(350.0));
    assert_eq!(vp.volume_at_price(amt(100.9)), amt(300.0));
    assert_eq!(vp.volume_at_price(amt(89.0)), amt(0.0));
    vp.update(amt(200.0), amt(1.0), true);
    assert_eq!(vp.total_volume(), amt(350.0));
}

#[test]
fn a_value_area_grows_to_the_heavier_side() {
    let mut vp = VolumeProfile::new(amt(0.0), amt(5.0), amt(1.0), amt(0.70));
    vp.update(amt(2.5), amt(40.0), true);
    vp.update(amt(1.5), amt(20.0), true);
    vp.update(amt(3.5), amt(25.0), true);
    vp.update(amt(4.5), amt(15.0), true);
    assert_eq!(vp.poc(), amt(2.5));
    assert_eq!(vp.val(), amt(1.0));
    assert_eq!(vp.vah(), amt(4.0));
}

#[test]
fn metrics_are_updated_together() {
    let mut metrics = VolumeMetrics::new(amt(90.0), amt(110.0), amt(1.0));
    metrics.update(amt(101.0), amt(99.0), amt(100.0), amt(10.0), false);
    assert_eq!(metrics.vwap(), amt(100.0));
    assert_eq!(metrics.cvd(), amt(-10.0));
    assert_eq!(metrics.poc(), amt(100.5));
    assert_eq!(metrics.val(), amt(100.0));
    assert_eq!(metrics.vah(), amt(101.0));
}

fn cloned() -> BCAction {
    BCAction {
        participation_rate: amt(0.5),
        aggressiveness: 1,
        confidence: amt(0.4),
        is_fallback: false,
    }
}

fn learned(confidence: f64) -> LearnedAction {
    LearnedAction {
        participation_rate: amt(0.6),
        aggressiveness: 1,
        confidence: amt(confidence),
    }
}

#[test]
fn test_hybrid_executor() {
    let mut executor = HybridExecutor::new(amt(0.7));
    let action = executor.execute(Some(learned(0.9)), &cloned());
    assert!(!action.is_fallback);
    let action = executor.execute(Some(learned(0.5)), &cloned());
    assert!(action.is_fallback);
    let action = executor.execute(None, &cloned());
    assert!(action.is_fallback);
    executor.record_action(action);
    executor.record_action(BCAction {
        participation_rate: amt(0.5),
        aggressiveness: 1,
        confidence: amt(0.8),
        is_fallback: false,
    });
    assert_eq!(executor.get_fallback_rate(), (1, 2));
    assert_eq!(executor.get_avg_confidence(), (120_000_000, 2));
    for _ in 0..200 {
        executor.record_action(cloned());
    }
    assert_eq!(executor.get_fallback_rate(), (0, 100));
}

#[test]
fn logits_have_three_classes() {
    assert_eq!(aggressiveness_of(amt(-0.51)), 0);
    assert_eq!(aggressiveness_of(amt(-0.5)), 1);
    assert_eq!(aggressiveness_of(amt(0.5)), 2);
}

#[test]
fn test_rsi() {
    let mut rsi = RSI::new();
    let prices = [44.0, 44.25, 44.5, 43.75, 44.5, 44.0, 43.5, 43.0, 43.5, 44.0];
    for i in 1..prices.len() {
        rsi.update(amt(prices[i]), amt(prices[i - 1]));
    }
    assert!(rsi.value().units >= 0 && rsi.value().units <= amt(100.0).units);
}

#[test]
fn the_strength_index_weighs_gains_against_losses() {
    let mut rsi = RSI::new();
    assert_eq!(rsi.value(), amt(50.0));
    // Without losses the relative strength counts as one hundred.
    let r = rsi.update(amt(114.0), amt(100.0));
    assert_eq!(rsi.avg_gain, amt(1.0));
    assert_eq!(r.units, 10_000_000_000 - 99_009_900);
    let mut even = RSI::new();
    even.update(amt(114.0), amt(100.0));
    even.update(amt(101.0), amt(114.0));
    assert_eq!(even.avg_gain.units, 92_857_142);
    assert_eq!(even.avg_loss.units, 92_857_142);
    assert_eq!(even.value(), amt(50.0));
}

#[test]
fn a_window_keeps_the_newest_values() {
    let mut window: RollingWindow<3> = RollingWindow::new();
    for i in 1..=4 {
        window.push(amt(i as f64));
    }
    assert_eq!(window.get(0), Some(amt(2.0)));
    assert_eq!(window.get(1), Some(amt(4.0)));
    assert_eq!(window.get(2), Some(amt(3.0)));
    assert_eq!(window.get(3), None);
    assert_eq!(window.sum(), amt(9.0).units as i128);
    assert_eq!(window.avg(), amt(3.0));
}

#[test]
fn averages_converge_and_diverge() {
    let mut macd = MACD::new(1, 3, 1);
    assert_eq!(macd.update(amt(0.0)), (amt(0.0), amt(0.0), amt(0.0)));
    assert!(!macd.initialized);
    macd.update(amt(10.0));
    assert!(macd.initialized);
    // The fast average follows at once, the slow one goes half the way.
    assert_eq!(macd.update(amt(14.0)), (amt(2.0), amt(2.0), amt(0.0)));
    assert_eq!(macd.lines(), (amt(2.0), amt(2.0), amt(0.0)));
}

#[test]
fn the_stochastic_oscillator_places_the_close() {
    let mut s = Stochastic::new();
    assert_eq!(s.values(), (amt(50.0), amt(50.0)));
    for _ in 0..16 {
        s.update(amt(20.0), amt(10.0), amt(15.0));
    }
    let (k, d) = s.update(amt(20.0), amt(10.0), amt(18.0));
    assert_eq!(k, amt(80.0));
    assert_eq!(d, amt(60.0));
    for _ in 0..16 {
        s.update(amt(7.0), amt(7.0), amt(9.0));
    }
    assert_eq!(s.values(), (amt(50.0), amt(50.0)));
}

#[test]
fn test_ema() {
    let mut ema = EMA::new(10);
    for i in 1..=20 {
        ema.update(amt(i as f64));
    }
    assert!(ema.value().units > 0);
    let mut short = EMA::new(3);
    short.update(amt(10.0));
    assert_eq!(short.update(amt(20.0)), amt(15.0));
}

#[test]
fn test_atr() {
    let mut atr = ATR::new(14);
    atr.update(amt(100.0), amt(98.0), amt(99.0));
    atr.update(amt(101.0), amt(99.0), amt(100.0));
    assert!(atr.value().units > 0);
    assert_eq!(atr.value(), amt(2.0));
    // A gap up counts from the close before.
    assert_eq!(atr.update(amt(116.0), amt(115.0), amt(115.0)), amt(3.0));
}

#[test]
fn a_simple_average_forgets_old_values() {
    let mut sma: SMA<2> = SMA::new();
    assert_eq!(sma.value(), amt(0.0));
    assert_eq!(sma.update(amt(1.0)), amt(1.0));
    assert_eq!(sma.update(amt(2.0)), amt(1.5));
    assert_eq!(sma.update(amt(4.0)), amt(3.0));
}

#[test]
fn bands_stand_off_by_deviations() {
    let mut bands: BollingerBands<2> = BollingerBands::new(amt(2.0));
    bands.update(amt(10.0));
    assert_eq!(bands.bands(), (amt(10.0), amt(10.0), amt(10.0)));
    // The mean is 14, the squared deviation 16 times one twentieth.
    let (upper, mean, lower) = bands.update(amt(18.0));
    assert_eq!(mean, amt(14.0));
    assert_eq!(bands.sum_sq, amt(0.8));
    assert_eq!(upper.units, 1_400_000_000 + 178_885_438);
    assert_eq!(lower.units, 1_400_000_000 - 178_885_438);
    assert_eq!(bands.bandwidth().units, 25_555_062);
}

#[test]
fn the_directional_index_follows_the_trend() {
    let mut adx = ADX::new(2);
    let r = adx.update(amt(12.0), amt(8.0), amt(10.0), amt(11.0), amt(8.0));
    assert_eq!(adx.di_values(), (amt(25.0), amt(0.0)));
    assert_eq!(r, amt(100.0));
    assert_eq!(adx.value(), amt(100.0));
    // A bar that takes back the move halves the difference's mean.
    let r = adx.update(amt(11.0), amt(7.5), amt(8.0), amt(12.0), amt(8.0));
    assert_eq!(adx.dx, amt(0.0));
    assert_eq!(r, amt(50.0));
    let flat = ADX::new(2).update(amt(5.0), amt(5.0), amt(5.0), amt(5.0), amt(5.0));
    assert_eq!(flat, amt(0.0));
}

#[test]
fn cloud_lines_are_midpoints() {
    let mut cloud = IchimokuCloud::new(1, 2, 3, 1);
    cloud.update(amt(10.0), amt(8.0), amt(9.0));
    cloud.update(amt(20.0), amt(10.0), amt(15.0));
    let v = cloud.update(amt(14.0), amt(12.0), amt(13.0));
    assert_eq!(v.tenkan, amt(13.0));
    assert_eq!(v.kijun, amt(15.0));
    assert_eq!(v.senkou_a, amt(14.0));
    assert_eq!(v.senkou_b, amt(14.0));
    assert_eq!(v.chikou, amt(13.0));
}

#[test]
fn prices_are_averaged_over_timeframes() {
    let p = MultiTimeframeProcessor::new(vec![1000, 2000]);
    let data = [amt(1.0), amt(2.0), amt(4.0)];
    assert_eq!(p.resample(&data, 500), vec![amt(1.0), amt(2.0), amt(4.0)]);
    assert_eq!(p.resample(&data, 2999), vec![amt(1.5), amt(4.0)]);
    assert_eq!(p.resample(&data, u64::MAX).len(), 1);
    assert!(p.resample(&[], 1000).is_empty());
}

#[test]
fn outputs_become_actions() {
    assert_eq!(participation_of(amt(0.5)), amt(0.75));
    assert_eq!(participation_of(amt(-3.0)), amt(0.0));
    assert_eq!(participation_of(amt(3.0)), amt(1.0));
    let stats = ExpertStats::new();
    // 0.2 off by a deviation of 0.2, and 1 off by one of 0.5.
    assert_eq!(stats.distance_of(amt(0.7), amt(2.0)).units, 149_999_550);
}

#[test]
fn test_bc_engine_inference() {
    let engine = BehavioralCloningEngine::new();
    let state = BCState { features: [amt(0.5); 56], timestamp_ns: 1234567890 };
    let (participation, logit) = engine.activate(&state);
    let squash = |x: Amount| amt((x.units as f64 / 1e8).tanh());
    let (participation, logit) = (squash(participation), squash(logit));
    let distance = engine.stats.distance_of(participation_of(participation), logit);
    let confidence = amt((-(distance.units as f64) / 1e8).exp());
    let action = engine.action(participation, logit, confidence);
    assert!(action.participation_rate.units >= 0);
    assert!(action.participation_rate.units <= amt(1.0).units);
    assert!(action.aggressiveness <= 2);
    assert!(action.confidence.units >= 0);
    assert!(action.confidence.units <= amt(1.0).units);
    println!("BC Action: {:?}", action);
}

#[test]
fn a_layer_weighs_its_inputs() {
    let mut layer = LinearLayer::new(2, 2);
    layer.weights = vec![amt(1.0), amt(2.0), amt(-3.0), amt(0.0)];
    layer.biases = vec![amt(0.5), amt(1.0)];
    assert_eq!(layer.forward(&[amt(1.0), amt(2.0)]), vec![amt(5.5), amt(0.0)]);
    let engine = BehavioralCloningEngine::new();
    let state = BCState { features: [amt(0.5); 56], timestamp_ns: 0 };
    // 56 halves of one hundredth, then 64 and 32 such sums of one hundredth.
    assert_eq!(engine.activate(&state), (amt(0.057344), amt(0.057344)));
}
