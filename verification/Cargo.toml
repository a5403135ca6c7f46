[package]
name = "rlpx_session"
version = "0.1.0"
edition = "2021"
publish = false

[dependencies]
aes = "0.8"
ctr = "0.9"
sha3 = "0.10"
secp256k1 = "*"
tokio-util = { version = "0.7", features = ["codec"] }
bytes = "*"
