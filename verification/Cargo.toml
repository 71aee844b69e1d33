[package]
name = "azure-keyvault-tui"
version = "0.1.0"
edition = "2021"
publish = false

[dependencies]
anyhow = "1"
cargo_metadata = "*"
clap = { version = "4", features = ["cargo"] }
crossterm = { version = "*", features = ["event-stream"] }
dirs = "*"
futures = "0.3"
ratatui = "*"
serde = { version = "1", features = ["derive"] }
serde_json = "1"
tokio = { version = "1", features = ["full"] }
