[package]
name = "ement-e2ee"
version = "0.1.0"
edition = "2021"
publish = false

[dependencies]
anyhow = "=1.0.104"
axum = { version = "=0.8.9", default-features = false, features = ["http1", "json", "tokio"] }
clap = { version = "=4.6.7", features = ["derive"] }
dirs = "=7.0.0"
http = "=1.5.0"
matrix-sdk-crypto = "=0.18.0"
matrix-sdk-sqlite = { version = "=0.18.0", default-features = false, features = ["crypto-store", "bundled"] }
percent-encoding = "=2.3.2"
reqwest = { version = "=0.12.28", default-features = false, features = ["json", "stream", "rustls-tls"] }
rpassword = "=7.5.4"
ruma = { version = "0.16", features = ["client-api-c", "events"] }
rusqlite = "*"
serde = { version = "=1.0.229", features = ["derive"] }
serde_json = { version = "=1.0.154", features = ["raw_value"] }
thiserror = "=2.0.21"
tokio = { version = "=1.54.1", features = ["rt-multi-thread", "macros", "net", "signal", "sync", "time"] }
toml = "*"
tracing = "=0.1.44"
tracing-subscriber = { version = "=0.3.23", features = ["env-filter"] }
