[package]
name = "trss"
version = "0.1.0"
edition = "2021"
publish = false

[dependencies]
tl = "0.7"
rss = "2"
chrono = "0.4"
ratatui = { version = "0.29", features = ["serde", "unstable-widget-ref"] }
tokio = { version = "1", features = ["rt-multi-thread", "macros", "sync"] }
reqwest = { version = "0.12", default-features = false, features = ["rustls-tls"] }
async-sqlite = "*"
serde = { version = "1", features = ["derive"] }
serde_json = "1"
