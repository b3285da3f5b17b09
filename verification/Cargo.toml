[package]
name = "ws_chat"
version = "0.1.0"
edition = "2021"
publish = false

[dependencies]
anyhow = "1"
base64 = "0.13"
futures = "0.3"
hyper = { version = "0.14", features = ["full"] }
sha1 = "0.10"
tokio = { version = "1", features = ["full"] }
uuid = { version = "1", features = ["v4"] }
