[package]
name = "waterleakage"
version = "0.1.0"
edition = "2021"
publish = false

[dependencies]
bincode = "1.3"
uuid = { version = "1", features = ["v4"] }
serde = { version = "1", features = ["derive"] }
tokio = { version = "1", features = ["full"] }
toml = "*"
env_logger = "*"
log = "0.4"
