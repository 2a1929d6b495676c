[package]
name = "plotly_client"
version = "0.1.0"
edition = "2021"
publish = false

[dependencies]
serde = { version = "=1.0.229", features = ["derive"] }
serde_json = "=1.0.151"
tokio = { version = "=1.53.2", features = ["net", "rt-multi-thread", "time", "sync", "macros"] }
parking_lot = "=0.12.5"
futures-util = "=0.3.34"
log = "=0.4.34"
env_logger = "=0.11.11"
socket2 = "=0.6.5"
kiwi-measurements = { version = "=0.3.0", features = ["serde"] }
