[package]
name = "jotabot"
version = "0.1.0"
edition = "2021"
publish = false

[dependencies]
base64 = "0.21"
regex = "1"
image = { version = "0.24", default-features = false, features = ["png", "gif", "webp"] }
serde_json = "1"
serenity = { version = "0.12", default-features = false, features = ["builder", "cache", "client", "gateway", "http", "model", "utils", "rustls_backend"] }
tokio = { version = "1", features = ["macros", "rt-multi-thread", "sync"] }
reqwest = { version = "0.11", default-features = false, features = ["json", "rustls-tls"] }
