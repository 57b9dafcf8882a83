//! Order execution: pegged and reserve orders, and the algorithms that slice
//! and pace large ones.

pub mod adaptive_algos;
pub mod discretionary_orders;
pub mod following;
pub mod iceberg_sniper;
pub mod pacing;
pub mod pegged_orders;
pub mod twap_vwap;
