//! Order state at an exchange: lifecycle, reconciliation and rate limits.

pub mod binance_order_manager;
pub mod discrepancies;
pub mod rate_limiter;
pub mod reconciliation;
pub mod records;
