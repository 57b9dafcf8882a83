//! Market data: streams, messages and order books.

pub mod binance_ws_client;
pub mod ingestor_main;
pub mod orderbook_reconstructor;
pub mod streams;
