//! Indicators computed from prices and volumes.

pub mod oscillators;
pub mod readings;
pub mod trend_volatility;
pub mod volume_profile;
pub mod windows;
