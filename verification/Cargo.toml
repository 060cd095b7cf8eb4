[package]
name = "funpay_rs"
version = "0.1.0"
edition = "2021"
publish = false

[dependencies]
scraper = "0.20"
serde = { version = "1", features = ["derive"] }
serde_json = "1"
url = "2"
chrono = "0.4"
rand = "0.8"
reqwest = { version = "0.12", default-features = false, features = ["cookies", "rustls-tls"] }
tokio = { version = "1", features = ["rt-multi-thread", "macros", "time", "sync"] }
tokio-tungstenite = "0.21"
futures = "0.3"
futures-util = "0.3"
async-stream = "0.3"
csv = "1"
log = "0.4"
thiserror = "1"
