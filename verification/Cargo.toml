[package]
name = "gateway_requests"
version = "0.1.0"
edition = "2021"
publish = false

[dependencies]
aes = "=0.9.3"
blake3 = { version = "=1.8.7", default-features = false, features = ["pure", "traits-preview"] }
bs58 = "=0.5.1"
ctr = "=0.10.1"
futures = "=0.3.34"
hmac = "=0.13.0"
log = "=0.4.34"
serde = { version = "=1.0.229", features = ["derive"] }
serde_json = "=1.0.154"
sphinx-packet = "=0.8.0"
tokio = { version = "=1.54.1", features = ["rt"] }
tungstenite = "=0.30.0"
