//! Verified core of a trading system: order state, wire formats, gateways,
//! schedulers, ring buffers and the resource rules around them.
//!
//! Every decision lives here and is proved against its contract. Input and
//! output, threads, and arithmetic on floating-point numbers belong to the
//! programs that use this crate.
#![allow(unused_imports)]
#![allow(dead_code)]

pub mod base;
pub mod event_loop;
pub mod exchange;
pub mod execution;
pub mod fallback;
pub mod fix;
pub mod frontend_bridge;
pub mod fundamentals;
pub mod gateways;
pub mod hedging;
pub mod hft;
pub mod imitation;
pub mod indicators;
pub mod inference;
pub mod ingestion;
pub mod journal;
pub mod macro_events;
pub mod margin;
pub mod market_making;
