[package]
name = "swarm"
version = "0.1.0"
edition = "2021"
publish = false

[dependencies]
anyhow = "1"
chrono = "0.4"
clap = { version = "4", features = ["derive"] }
crossterm = "0.28"
dirs = "5"
ratatui = "0.29"
regex = "1"
reqwest = { version = "0.12", default-features = false, features = ["blocking", "json", "rustls-tls"] }
self-replace = "1"
serde = { version = "1", features = ["derive"] }
serde_json = "1"
slug = "0.1"
toml = "0.8"
