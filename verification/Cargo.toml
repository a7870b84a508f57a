[package]
name = "gateway_requests"
version = "0.1.0"
edition = "2021"
publish = false

[dependencies]
aes = "=0.8.4"
blake3 = { version = "=1.5.5", default-features = false, features = ["pure", "traits-preview"] }
bs58 = "=0.5.1"
ctr = "=0.9.2"
hmac = "=0.12.1"
rand = "=0.8.8"
serde = { version = "=1.0.229", features = ["derive"] }
serde_json = "=1.0.154"
sha2 = "=0.10.9"
tungstenite = "=0.20.1"
url = "=2.5.8"
