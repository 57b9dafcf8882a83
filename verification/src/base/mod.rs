//! Building blocks shared by the other modules.

pub mod amount;
pub mod amount_text;
pub mod bytes;
pub mod clock;
pub mod crypto;
pub mod decimals;
pub mod json;
pub mod numbers;
pub mod rounding;
pub mod sequences;
pub mod sorting;
pub mod table;
pub mod text;
pub mod wide;
pub mod wording;
