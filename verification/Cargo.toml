[package]
name = "relay_hub"
version = "0.1.0"
edition = "2021"
publish = false

[dependencies]
tokio = { version = "1", features = ["full"] }
warp = "0.3"
serde = { version = "1.0", features = ["derive"] }
serde_json = "1.0"
futures-util = { version = "0.3", features = ["sink"] }
tokio-stream = "0.1"
tokio-tungstenite = "0.21"
chrono = "0.4"
pretty_env_logger = "0.5"
