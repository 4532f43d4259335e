[package]
name = "stm"
version = "0.1.0"
edition = "2021"
publish = false

[dependencies]
anyhow = "*"
chrono = "*"
clap = { version = "*", features = ["derive"] }
crossterm = { version = "*", features = ["event-stream"] }
dirs = "*"
futures = "*"
ratatui = "*"
serde = { version = "*", features = ["derive"] }
serde_json = "*"
tokio = { version = "*", features = ["full"] }
toml = "*"
