[package]
name = "vamq"
version = "0.3.0"
edition = "2021"
publish = false

[dependencies]
anyhow = "1"
base64 = "0.22"
byteorder = "1"
futures = "0.3"
futures-util = "0.3"
rubato = "0.15"
secrecy = { version = "0.10", features = ["serde"] }
serde = { version = "1", features = ["derive"] }
serde_json = "1"
tokio = { version = "1", features = ["full"] }
tokio-tungstenite = { version = "0.24", features = ["rustls-tls-webpki-roots"] }
tracing = "0.1"
zmq = "0.10"
