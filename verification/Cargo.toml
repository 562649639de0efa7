[package]
name = "righter"
version = "0.1.0"
edition = "2021"
publish = false

[dependencies]
ropey = "1.6"
unicode-width = "0.2"
regex = "1"
tree-sitter = "0.25"
tree-sitter-rust = "0.24"
streaming-iterator = "0.1"
serde = { version = "1", features = ["derive"] }
serde_json = "1"
crossterm = { version = "0.28", features = ["event-stream"] }
ratatui = "0.29"
tokio = { version = "1", features = ["full"] }
futures = "0.3"
anyhow = "1"
