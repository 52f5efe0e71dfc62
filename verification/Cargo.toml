[package]
name = "cf-cdn"
version = "0.1.0"
edition = "2021"
publish = false

[dependencies]
base64 = "0.21"
bytes = "1"
uuid = { version = "1", features = ["v4"] }
tokio = { version = "1", features = ["full"] }
tokio-tungstenite = "*"
futures = "0.3"
log = "0.4"
env_logger = "*"
serde = { version = "1", features = ["derive"] }
toml = "*"
thiserror = "*"
