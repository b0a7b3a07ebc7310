[package]
name = "indexer_core"
version = "0.1.0"
edition = "2021"
publish = false

[dependencies]
axum = { version = "=0.8.9", default-features = false, features = ["http1", "json", "query", "tokio"] }
dashmap = "=6.2.1"
futures = "=0.3.34"
mongodb = { version = "=3.9.1", default-features = false, features = ["bson-3", "compat-3-3-0", "rustls-tls"] }
serde = { version = "=1.0.229", features = ["derive"] }
serde_json = "=1.0.151"
solana-address = { version = "=2.9.0", features = ["decode"] }
solana-pubkey = "=4.4.0"
tokio = { version = "=1.53.2", features = ["macros", "rt-multi-thread", "sync", "time", "net"] }
tokio-stream = { version = "=0.1.19", features = ["sync"] }
