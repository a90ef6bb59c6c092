[package]
name = "pantalaimon"
version = "0.11.0"
edition = "2021"
publish = false

[dependencies]
anyhow = "=1.0.104"
axum = "=0.7.9"
bytes = "=1.12.1"
clap = { version = "=4.6.7", features = ["derive"] }
configparser = { version = "=3.3.0", features = ["indexmap"] }
dashmap = "=6.2.1"
dirs = "=7.0.0"
futures-util = "=0.3.34"
http = "=1.5.0"
indexmap = "=2.14.2"
keyring = "=3.6.3"
matrix-sdk-crypto = { version = "=0.14.0", default-features = false }
reqwest = { version = "=0.12.28", default-features = false, features = ["brotli", "deflate", "gzip", "json", "rustls-tls"] }
ruma = { version = "=0.13.0", default-features = false, features = ["client-api-c", "events"] }
rusqlite = { version = "=0.41.1", features = ["bundled"] }
serde = { version = "=1.0.229", features = ["derive"] }
serde_json = "=1.0.154"
thiserror = "=2.0.21"
tokio = { version = "=1.54.1", features = ["full"] }
tracing = "=0.1.44"
tracing-subscriber = { version = "=0.3.23", features = ["env-filter"] }
url = "=2.5.8"
zbus = { version = "=4.4.0", default-features = false, features = ["tokio"] }
