[package]
name = "auction_query"
version = "0.1.0"
edition = "2021"
publish = false

[dependencies]
base64 = "0.13"
futures = "0.3"
hematite-nbt = "0.5"
hyper = { version = "0.14", features = ["server", "http1", "tcp"] }
lazy_static = "1"
log = "0.4"
mongodb = "2"
regex = "1"
reqwest = { version = "0.11", default-features = false, features = ["gzip", "brotli", "rustls-tls"] }
serde = { version = "1", features = ["derive"] }
serde_json = "1"
simplelog = "0.12"
substring = "1"
tokio = { version = "1", features = ["full"] }
