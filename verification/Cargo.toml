[package]
name = "boa"
version = "0.1.0"
edition = "2021"
publish = false

[dependencies]
shell-words = "1"
nucleo-matcher = "0.3"
toml = "*"
serde = { version = "1", features = ["derive"] }
serde_json = "1"
chrono = { version = "0.4", features = ["serde"] }
dirs = "*"
tempfile = "3"
crossterm = "*"
ratatui = "*"
tokio = { version = "1", features = ["fs", "io-util", "rt"] }
reqwest = { version = "*", default-features = false, features = ["stream", "rustls-tls"] }
futures-util = "0.3"
anyhow = "1"
