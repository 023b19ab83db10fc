[package]
name = "ws_handshake"
version = "0.1.0"
edition = "2021"
publish = false

[dependencies]
bytes = "=1.12.1"
http = "0.2"
httparse = "=1.10.1"
ratchet_ext = "0.4"
tokio = { version = "=1.54.1", features = ["io-util"] }
tokio-util = { version = "=0.7.20", features = ["codec"] }
url = "=2.5.8"
