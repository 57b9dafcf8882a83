[package]
name = "trading_core"
version = "0.1.0"
edition = "2021"
publish = false

[dependencies]
aes-gcm = "0.10"
base64 = "0.21"
bincode = "1.3"
chrono = "0.4"
crossbeam = "0.8"
futures-util = "0.3"
hex = "0.4"
hmac = "0.12"
libc = "0.2"
lmdb = "0.8"
log = "0.4"
num_cpus = "1"
parking_lot = "0.12"
rand = "0.8"
rayon = "1"
serde = { version = "1", features = ["derive"] }
serde_json = "1"
sha2 = "0.10"
tokio = { version = "1", features = ["full"] }
tokio-tungstenite = "0.21"
tracing = "0.1"
tracing-subscriber = "0.3"
windows = { version = "0.52", features = ["Win32_Foundation", "Win32_System_Threading", "Win32_System_Memory", "Win32_Networking_WinSock", "Win32_System_IO", "Win32_System_SystemInformation", "Win32_System_ProcessStatus", "Win32_Security", "Win32_System_Power"] }
