[package]
name = "xlmate"
version = "0.1.0"
edition = "2021"
publish = false

[dependencies]
anyhow = "1"
base64 = "0.22"
log = "0.4"
reqwest = { version = "0.12", default-features = false, features = ["json", "rustls-tls"] }
serde = { version = "1", features = ["derive"] }
soroban-sdk = "22"
tokio = { version = "1", features = ["sync", "time"] }
uuid = { version = "1", features = ["serde", "v4"] }
