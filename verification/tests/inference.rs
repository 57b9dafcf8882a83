use std::collections::VecDeque;
use trading_core::base::amount::Amount;
use trading_core::base::table::Table;
use trading_core::inference::batch_scheduler::{
    BatchScheduler, BatchSchedulerBuilder, BatchSchedulerConfig, TickBatch, TickEvent,
};
use trading_core::inference::model_ensemble::{
    model_kind, EnsembleConfig, MarketRegime, ModelEnsemble, ModelPrediction, ModelType,
    ModelWeights,
};
use trading_core::inference::onnx_runtime::{
    OnnxError, OnnxRuntimeSession, OnnxSessionBuilder, OnnxSessionConfig,
};

#[test]
fn test_scheduler_creation() {
    let scheduler: BatchScheduler<f32> = BatchSchedulerBuilder::new()
        .target_batch_size(32)
        .min_batch_size(8)
        .max_wait_time_ms(1)
        .build();
    assert!(!scheduler.is_running());
}

#[test]
fn test_event_submission() {
    let mut scheduler: BatchScheduler<f32> = BatchScheduler::new(BatchSchedulerConfig::default());
    scheduler.is_running = true;
    let event = TickEvent::new("BTC/USD", vec![1.0f32, 2.0, 3.0], 3);
    let result = scheduler.submit(event);
    assert!(result.is_ok());
    let stats = scheduler.get_stats();
    assert_eq!(stats.total_events_received, 1);
}

#[test]
fn test_batch_creation_logic() {
    let mut config = BatchSchedulerConfig::default();
    config.target_batch_size = 4;
    config.min_batch_size = 2;
    config.max_wait_time_ms = 100;
    let mut queue: VecDeque<TickEvent<f32>> = VecDeque::new();
    for i in 0..3 {
        queue.push_back(TickEvent::new_at("TEST", vec![i as f32], 0, 0));
    }
    let mut priority: VecDeque<TickEvent<f32>> = VecDeque::new();
    let batch = BatchScheduler::try_create_batch(
        &mut queue,
        &mut priority,
        &config,
        None,
        4,
        150_000_000,
    );
    assert!(batch.is_some());
    assert_eq!(batch.unwrap().events.len(), 3);
}

#[test]
fn a_stopped_scheduler_takes_nothing() {
    let mut scheduler: BatchScheduler<u8> = BatchScheduler::new(BatchSchedulerConfig::default());
    assert!(scheduler.submit(TickEvent::new("A", vec![1u8], 0)).is_err());
    scheduler.start();
    assert!(scheduler.is_running());
    assert!(scheduler.submit(TickEvent::new("A", vec![1u8], 9)).is_ok());
    assert!(scheduler.has_work());
    scheduler.stop();
    assert!(!scheduler.is_running());
}

#[test]
fn batches_lose_no_event() {
    let mut config = BatchSchedulerConfig::default();
    config.target_batch_size = 2;
    config.min_batch_size = 1;
    config.max_wait_time_ms = 0;
    config.min_batch_interval_ms = 0;
    let mut scheduler: BatchScheduler<u8> = BatchScheduler::new(config);
    scheduler.start();
    for i in 0..5u8 {
        scheduler.submit(TickEvent::new_at("S", vec![i], 0, 0)).unwrap();
    }
    let mut seen: Vec<u8> = Vec::new();
    let mut now: u64 = 1_000_000_000;
    while scheduler.has_work() {
        if let Some(batch) = scheduler.step_at(now) {
            for e in batch.events.iter() {
                seen.push(e.data[0]);
            }
        }
        now += 1_000_000_000;
    }
    seen.sort();
    assert_eq!(seen, vec![0, 1, 2, 3, 4]);
}

fn amt(x: f64) -> Amount {
    Amount { units: (x * 1e8).round() as i64 }
}

#[test]
fn test_ensemble_creation() {
    let config = EnsembleConfig::default();
    let ensemble = ModelEnsemble::new(config);
    assert!(ensemble.is_active());
}

#[test]
fn test_model_weights_normalization() {
    let weights = ModelWeights {
        supervised: amt(2.0),
        deep_learning: amt(1.0),
        reinforcement: amt(1.0),
    };
    let normalized = weights.normalize();
    assert!((normalized.supervised.units - amt(0.5).units).abs() < amt(0.001).units);
    assert!((normalized.deep_learning.units - amt(0.25).units).abs() < amt(0.001).units);
    assert!((normalized.reinforcement.units - amt(0.25).units).abs() < amt(0.001).units);
}

fn prediction(kind: ModelType, at: u64) -> ModelPrediction {
    ModelPrediction {
        model_id: "supervised_xgb".to_string(),
        prediction: amt(0.75),
        confidence: amt(0.8),
        timestamp_ns: at,
        model_type: kind,
    }
}

#[test]
fn test_prediction_submission() {
    let mut ensemble = ModelEnsemble::new(EnsembleConfig::default());
    ensemble.submit_prediction(prediction(ModelType::Supervised, 0));
    assert_eq!(ensemble.predictions_buffer.len(), 1);
}

#[test]
fn the_latest_prediction_of_a_kind_counts() {
    let mut ensemble = ModelEnsemble::new(EnsembleConfig::default());
    ensemble.submit_prediction(prediction(ModelType::Supervised, 1));
    ensemble.submit_prediction(prediction(ModelType::DeepLearning, 2));
    ensemble.submit_prediction(prediction(ModelType::Supervised, 3));
    assert_eq!(ensemble.latest(ModelType::Supervised).unwrap().timestamp_ns, 3);
    assert_eq!(ensemble.latest(ModelType::DeepLearning).unwrap().timestamp_ns, 2);
    assert!(ensemble.latest(ModelType::Reinforcement).is_none());
    ensemble.update_regime(MarketRegime::Volatile);
    assert_eq!(ensemble.current_regime, MarketRegime::Volatile);
    ensemble.set_active(false);
    assert!(!ensemble.is_active());
}

#[test]
fn outcomes_are_counted_by_kind() {
    let mut ensemble = ModelEnsemble::new(EnsembleConfig::default());
    let id = "supervised_xgb";
    assert_eq!(model_kind(id), Some(ModelType::Supervised));
    ensemble.record_outcome(id, amt(1.0), amt(1.005), amt(0.8));
    ensemble.record_outcome(id, amt(1.0), amt(1.2), amt(0.8));
    let (supervised, deep, _) = ensemble.get_performance_summary();
    assert_eq!(supervised, amt(0.5));
    assert_eq!(deep, amt(0.0));
    assert_eq!(ensemble.supervised_perf.cumulative_error, amt(0.205));
    assert_eq!(ensemble.supervised_perf.avg_confidence, amt(0.152));
    // The mean of 0.000025 and 0.04.
    assert_eq!(ensemble.supervised_perf.recent_mse(), amt(0.0200125));
    assert_eq!(ensemble.deep_learning_perf.recent_mse(), amt(1.0));
    ensemble.record_outcome("nobody", amt(1.0), amt(1.2), amt(0.8));
    assert_eq!(ensemble.supervised_perf.total_predictions, 2);
}

fn voter(kind: ModelType, prediction: f64, confidence: f64) -> ModelPrediction {
    ModelPrediction {
        model_id: String::new(),
        prediction: amt(prediction),
        confidence: amt(confidence),
        timestamp_ns: 0,
        model_type: kind,
    }
}

#[test]
fn the_confident_models_vote() {
    let ones = ModelWeights::equal();
    let mut ensemble = ModelEnsemble::new(EnsembleConfig::default());
    assert!(ensemble.aggregate_at(ones, 0).is_none());
    ensemble.submit_prediction(voter(ModelType::Supervised, 1.0, 0.9));
    ensemble.submit_prediction(voter(ModelType::DeepLearning, 2.0, 0.5));
    ensemble.submit_prediction(voter(ModelType::Reinforcement, 9.0, 0.4));
    let (value, confidence, votes) = ensemble.aggregate_at(ones, 5).unwrap();
    assert_eq!(value, amt(1.5));
    assert_eq!(confidence, amt(0.7));
    assert_eq!(votes.supervised_weight.units, 33_333_333);
    assert_eq!(votes.reinforcement_weight, amt(0.0));
    assert_eq!(votes.deep_learning_vote, amt(2.0));
}

#[test]
fn the_state_of_the_market_shifts_the_weights() {
    let ones = ModelWeights::equal();
    let mut ensemble = ModelEnsemble::new(EnsembleConfig::default());
    ensemble.update_regime(MarketRegime::Trending);
    let w = ensemble.calculate_dynamic_weights(ones);
    assert_eq!(w.deep_learning, amt(0.375));
    assert_eq!(w.supervised, amt(0.3125));
    assert_eq!(w.reinforcement, amt(0.3125));
    for _ in 0..10 {
        ensemble.record_outcome("lstm", amt(1.0), amt(1.0), amt(0.9));
    }
    let halved = ModelWeights { deep_learning: amt(0.5), ..ones };
    let w = ensemble.calculate_dynamic_weights(halved);
    assert_eq!(w.deep_learning.units, 23_076_923);
}

#[test]
fn an_aggregate_is_good_for_a_millisecond() {
    let ones = ModelWeights::equal();
    let mut ensemble = ModelEnsemble::new(EnsembleConfig::default());
    ensemble.submit_prediction(voter(ModelType::Supervised, 1.0, 0.9));
    let first = ensemble.aggregate_at(ones, 1_000_000).unwrap();
    assert_eq!(first.0, amt(1.0));
    ensemble.predictions_buffer.clear();
    assert_eq!(ensemble.aggregate_at(ones, 1_999_999).unwrap(), first);
    assert!(ensemble.aggregate_at(ones, 2_000_000).is_none());
    ensemble.submit_prediction(voter(ModelType::Supervised, 3.0, 0.9));
    assert_eq!(ensemble.aggregate(ones).unwrap().0, amt(3.0));
}

#[test]
fn test_session_creation() {
    let session = OnnxSessionBuilder::new("test_model.onnx")
        .intra_op_threads(4)
        .inter_op_threads(2)
        .build();
    assert!(session.is_ok());
}

#[test]
fn test_inference_simulation() {
    let session = OnnxRuntimeSession::new("test.onnx", OnnxSessionConfig::default()).unwrap();
    let input = vec![amt(1.0), amt(2.0), amt(3.0), amt(4.0)];
    let output = session.simulate_inference(&input);
    assert_eq!(output.len(), input.len());
    assert_eq!(output[0], amt(0.5));
}

#[test]
fn inference_needs_an_initialized_session_and_an_input() {
    let mut session = OnnxRuntimeSession::new("test.onnx", OnnxSessionConfig::default()).unwrap();
    let empty: Table<Vec<Amount>> = Table::new();
    assert!(session.run_inference(&empty).is_err());
    let _ = session.initialize();
    assert!(session.is_initialized());
    assert!(matches!(session.run_inference(&empty), Err(OnnxError::InputMismatchError(_))));
    let mut inputs: Table<Vec<Amount>> = Table::new();
    let name = session.get_input_names()[0].clone();
    inputs.insert(name, vec![amt(1.0), amt(2.0)]);
    assert_eq!(session.run_inference(&inputs).unwrap(), vec![amt(0.5), amt(1.0)]);
    assert_eq!(session.run_batch_inference(&vec![inputs]).unwrap().len(), 1);
}

#[test]
fn a_batch_is_as_old_as_its_oldest_event() {
    let urgent = TickEvent::new_at("A", vec![1u8], 9, 8_000_000);
    let waiting = TickEvent::new_at("B", vec![2u8], 0, 3_000_000);
    let batch = TickBatch::new_at(vec![urgent, waiting], 1, 9_000_000);
    assert_eq!(batch.oldest_event_age_ms_at(10_000_000), 7);
    let none: TickBatch<u8> = TickBatch::new_at(Vec::new(), 2, 0);
    assert_eq!(none.oldest_event_age_ms_at(10_000_000), 0);
}

#[test]
fn a_builder_starts_from_the_usual_settings() {
    let builder = OnnxSessionBuilder::new("m.onnx");
    assert!(builder.config.enable_cpu_mem_arena);
    assert!(builder.config.enable_mem_pattern);
    let session = builder.build().unwrap();
    assert_eq!(session.get_input_names().len(), 0);
    assert_eq!(session.get_output_names().len(), 0);
    assert!(!session.is_initialized());
}
