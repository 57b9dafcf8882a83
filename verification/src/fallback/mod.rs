//! What is kept when the system has to stop.

pub mod state_parker;
