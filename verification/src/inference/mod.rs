//! Model inference: batching, ensembles and sessions.

pub mod batch_scheduler;
pub mod model_ensemble;
pub mod onnx_runtime;
pub mod votes;
