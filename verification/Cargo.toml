[package]
name = "client_bridge"
version = "0.1.0"
edition = "2021"
publish = false

[dependencies]
backtrace = "0.3"
bech32 = "0.9"
futures = "0.3"
hex = "0.4"
rand = "0.8"
serde_json = "1"
tokio = { version = "1", features = ["rt-multi-thread"] }
