//! Margin: what a position needs, when it is liquidated, and what hedges save.

pub mod accounts;
pub mod liquidation_calculator;
pub mod margin_simulator;
pub mod meaning;
pub mod netting;
pub mod portfolio_margin;
