[package]
name = "safehouse"
version = "0.1.0"
edition = "2021"
publish = false

[dependencies]
anyhow = "1"
futures-util = "0.3"
matrix-sdk = { version = "=0.14.0", default-features = false, features = ["e2e-encryption", "sqlite", "bundled-sqlite", "rustls-tls"] }
reqwest = { version = "0.12", default-features = false, features = ["json"] }
rusqlite = { version = "*", features = ["bundled"] }
serde = { version = "1", features = ["derive"] }
serde_json = "=1.0.154"
tokio = { version = "1", features = ["rt-multi-thread", "macros", "net", "io-util", "sync", "time", "signal"] }
toml = "0.5"
