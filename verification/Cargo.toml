[package]
name = "kiosk_native"
version = "0.1.0"
edition = "2021"
publish = false

[dependencies]
tokio = { version = "*", features = ["rt-multi-thread", "macros", "time", "sync"] }
tokio-tungstenite = "*"
futures-util = "*"
reqwest = { version = "*", default-features = false }
log = "*"
env_logger = "*"

[dev-dependencies]
serde_json = "*"
