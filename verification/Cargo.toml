[package]
name = "zorv"
version = "1.1.0"
edition = "2021"
publish = false

[dependencies]
crc32fast = "=1.5.4"
hmac = "=0.12.1"
sha2 = "=0.10.9"
rand = "=0.8.8"
uuid = { version = "=1.29.0", features = ["v4"] }
serde = { version = "=1.0.229", features = ["derive"] }
serde_json = "=1.0.154"
tokio = { version = "=1.54.1", features = ["full"] }
tokio-rustls = "=0.26.6"
rustls = "=0.23.46"
rustls-pemfile = "=2.2.0"
dashmap = "=6.2.1"
clap = { version = "=4.6.7", features = ["derive"] }
anyhow = "=1.0.104"
thiserror = "=2.0.21"
tracing = "=0.1.44"
tracing-subscriber = { version = "=0.3.23", features = ["env-filter"] }
bytes = "=1.12.1"
toml = "0.8"
