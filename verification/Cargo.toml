[package]
name = "pw_core"
version = "0.1.0"
edition = "2021"
publish = false

[dependencies]
rust-crypto = "*"
aes-wasm = "*"
base64 = "*"
hex = "*"
axum = "*"
tokio = { version = "*", features = ["full"] }
serde = { version = "*", features = ["derive"] }
serde_json = "*"
redis = "*"
config = "*"
uuid = { version = "*", features = ["v4"] }
