[package]
name = "mononoke"
version = "0.1.0"
edition = "2021"
publish = false

[dependencies]
anyhow = "=1.0.104"
bytes = "=0.5.6"
clap = "=2.34.0"
futures = "=0.3.34"
regex = "=1.13.1"
serde = { version = "=1.0.229", features = ["derive"] }
serde_json = "=1.0.154"
slog = "=2.8.2"
tokio = { version = "=0.2.25", features = ["sync"] }
