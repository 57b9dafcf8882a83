//! The trade journal.

pub mod event_logger;
pub mod history;
