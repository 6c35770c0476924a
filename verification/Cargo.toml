[package]
name = "radio"
version = "0.0.1"
edition = "2021"
publish = false

[dependencies]
anyhow = "1"
axum = { version = "0.6", features = ["ws"] }
axum-server = { version = "0.4", features = ["tls-rustls"] }
clap = "3.2"
futures = "0.3"
serde = { version = "1", features = ["derive"] }
serde_json = "1"
tokio = { version = "1", features = ["full"] }
uuid = { version = "1", features = ["v4"] }
webrtc = "0.6"
