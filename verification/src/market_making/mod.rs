//! Market making: quotes, spreads and cancellations.

pub mod cancellation_manager;
pub mod quotes;
pub mod spread_optimizer;
pub mod tick_quoter;
