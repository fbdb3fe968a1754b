[package]
name = "quicklime"
version = "0.1.0"
edition = "2021"
publish = false

[dependencies]
lru = "*"
serde_json = "*"
jsonpath-rust = "*"
crossbeam-channel = "*"
serde = { version = "*", features = ["derive"] }
reqwest = { version = "*", default-features = false, features = ["blocking", "json", "rustls-tls"] }
