//! FIX 4.4: messages, sessions and an order gateway.

pub mod contents;
pub mod fix_gateway;
pub mod fix_parser;
pub mod fix_session;
pub mod message_builder;
pub mod tags;
