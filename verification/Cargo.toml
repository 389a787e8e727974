[package]
name = "library-core"
version = "0.1.0"
edition = "2021"
publish = false

[dependencies]
regex = "=1.13.1"
csv = "=1.4.0"
scraper = "=0.29.0"
reqwest = { version = "=0.12.28", default-features = false, features = ["blocking", "rustls-tls"] }
chrono = "=0.4.45"
rusqlite = { version = "=0.41.1", features = ["bundled"] }
clap = { version = "=4.6.7", features = ["derive"] }
dirs = "=7.0.0"
serde = { version = "=1.0.229", features = ["derive"] }
serde_json = "=1.0.154"
strsim = "=0.11.1"
toml = "=1.1.8"
anyhow = "=1.0.104"
open = "5"
