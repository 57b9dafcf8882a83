//! Delta hedging.

pub mod directions;
pub mod hedge_executor;
