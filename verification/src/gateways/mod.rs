//! Gateways to exchanges, and the router above them.

pub mod bybit_ws;
pub mod derivatives_ws;
pub mod okx_gateway;
pub mod translations;
pub mod unified_router;
