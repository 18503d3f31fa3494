[package]
name = "obs_sync"
version = "0.1.0"
edition = "2021"
publish = false

[dependencies]
anyhow = "*"
base64 = "=0.22.1"
chrono = "=0.4.45"
futures = "*"
futures-util = "*"
obws = { version = "=0.15.0", features = ["events"] }
serde = { version = "*", features = ["derive"] }
serde_json = "=1.0.151"
tokio = { version = "=1.53.2", features = ["full"] }
tokio-tungstenite = "=0.30.0"
uuid = { version = "=1.27.0", features = ["v4"] }
