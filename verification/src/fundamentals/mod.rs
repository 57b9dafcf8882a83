//! Fundamentals of an asset.

pub mod flows;
pub mod supply_analyzer;
