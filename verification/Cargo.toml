[package]
name = "tauri_sync_db"
version = "0.1.0"
edition = "2021"
publish = false

[dependencies]
chrono = "0.4"
serde = { version = "1", features = ["derive"] }
serde_json = "1"
tokio = { version = "1", features = ["rt", "rt-multi-thread", "sync", "time"] }
libsql = "*"
hyper-rustls = { version = "0.25", features = ["webpki-roots", "http1"] }
reqwest = { version = "0.12", default-features = false, features = ["rustls-tls", "json"] }
log = "0.4"
