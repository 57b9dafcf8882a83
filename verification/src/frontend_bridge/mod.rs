//! What user interfaces see: a REST interface and a message stream.

pub mod rest_api_server;
pub mod wire;
pub mod ws_broadcaster;
