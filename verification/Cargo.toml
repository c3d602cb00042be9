[package]
name = "wscat_rust"
version = "0.1.0"
edition = "2021"
publish = false

[dependencies]
prost = "0.13"
rand = "0.8"
axum = { version = "0.7", features = ["ws"] }
futures-util = "0.3"
tokio = { version = "1", features = ["full"] }
tokio-tungstenite = "*"
reqwest = { version = "0.12", default-features = false }
