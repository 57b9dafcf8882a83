//! Imitation of expert behaviour.

pub mod behavioral_cloning;
pub mod choices;
