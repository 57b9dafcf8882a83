//! Macroeconomic releases and the trading halts around them.

pub mod event_calendar;
pub mod halts;
