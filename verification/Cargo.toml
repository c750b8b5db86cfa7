[package]
name = "sqld_core"
version = "0.1.0"
edition = "2021"
publish = false

[dependencies]
anyhow = "1"
async-trait = "0.1"
axum = "0.6"
base64 = "0.21"
bytes = "1"
color-eyre = "0.6"
futures = "0.3"
hmac = "0.12"
hyper = { version = "0.14", features = ["full"] }
hyper-tungstenite = "0.10"
parking_lot = "0.12"
rand = "0.8"
serde = { version = "1", features = ["derive"] }
serde_json = "1"
sha2 = "0.10"
thiserror = "1"
tokio = { version = "1", features = ["full"] }
tokio-tungstenite = "0.19"
tower = "0.4"
tracing = "0.1"
uuid = { version = "1", features = ["serde"] }
