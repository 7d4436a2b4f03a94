[package]
name = "simple_webrtc"
version = "0.1.0"
edition = "2021"
publish = false

[dependencies]
anyhow = "1"
bytes = "1"
chrono = "0.4"
clap = { version = "4", features = ["derive"] }
cpal = "0.14"
env_logger = "0.10"
futures = "0.3"
hyper = { version = "0.14", features = ["full"] }
lazy_static = "1"
log = "0.4"
opus = "0.3"
rand = "0.8"
serde = { version = "1", features = ["derive"] }
serde_json = "1"
tokio = { version = "1", features = ["full"] }
uuid = { version = "1", features = ["v4", "serde"] }
webrtc = "0.7"
