[package]
name = "host-input-helper"
version = "0.1.0"
edition = "2021"
publish = false

[dependencies]
serde_json = "1"
tokio = { version = "1", features = ["full"] }
tokio-tungstenite = "0.21"
futures-util = "0.3"
enigo = "0.1"
