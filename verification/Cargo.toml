[package]
name = "webrtc_core"
version = "0.1.0"
edition = "2021"
publish = false

[dependencies]
aes-gcm = "0.10"
ring = "0.17"
bytes = "1"
parking_lot = "0.12"
thiserror = "1"
serde = { version = "1", features = ["derive"] }
tokio = { version = "1", features = ["rt-multi-thread", "macros", "time", "net", "sync"] }
nix = { version = "0.29", features = ["sched"] }
crossbeam-utils = "0.8"
