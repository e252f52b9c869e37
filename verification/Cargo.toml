[package]
name = "migration-system"
version = "0.1.0"
edition = "2021"
publish = false

[dependencies]
anyhow = "1"
bytes = "1"
chrono = "0.4"
clap = { version = "4", features = ["derive"] }
csv = "1"
ego-tree = "*"
futures = "0.3"
html-escape = "0.2"
mime_guess = "2"
reqwest = { version = "0.12", default-features = false, features = ["multipart", "gzip", "brotli", "deflate", "rustls-tls"] }
scraper = "*"
serde = { version = "1", features = ["derive"] }
serde_json = "1"
tokio = { version = "1", features = ["macros", "rt-multi-thread", "time"] }
tracing = "0.1"
tracing-subscriber = { version = "0.3", features = ["env-filter", "fmt"] }
