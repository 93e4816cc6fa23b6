[package]
name = "auto_agent"
version = "0.1.0"
edition = "2021"
publish = false

[dependencies]
async-trait = "0.1"
base64 = "0.22"
chrono = "0.4"
log = "0.4"
parking_lot = "0.12"
reqwest = { version = "0.12", default-features = false, features = ["json"] }
rusqlite = { version = "0.31", features = ["bundled"] }
serde_json = { version = "1.0", features = ["float_roundtrip"] }
thiserror = "1"
tokio = { version = "1", features = ["rt", "rt-multi-thread", "sync", "macros", "time"] }
tokio-util = "0.7"
uuid = { version = "1", features = ["v4"] }
