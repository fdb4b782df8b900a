[package]
name = "https_proxy"
version = "0.1.0"
edition = "2021"
publish = false

[dependencies]
http = "1"
tokio-tungstenite = { version = "*", features = ["rustls-tls-webpki-roots"] }
tokio = { version = "1", features = ["full"] }
axum = "0.8"
axum-server = { version = "*", features = ["tls-rustls"] }
hyper = { version = "1", features = ["full"] }
hyper-rustls = "*"
hyper-util = { version = "0.1", features = ["client-legacy", "http1", "tokio"] }
rustls = { version = "0.23", features = ["ring"] }
futures-util = "0.3"
serde = { version = "1", features = ["derive"] }
serde_yaml = "*"
anyhow = "1"
