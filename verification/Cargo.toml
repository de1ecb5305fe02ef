[package]
name = "axon"
version = "0.1.0"
edition = "2021"
publish = false

[dependencies]
async-trait = "=0.1.92"
autoagents = { version = "=0.3.7", default-features = false, features = ["ollama"] }
autoagents-derive = "=0.3.7"
autoagents-toolkit = { version = "=0.3.7", default-features = false, features = ["filesystem"] }
axum = { version = "=0.7.9", features = ["ws"] }
chrono = { version = "=0.4.45", default-features = false, features = ["clock", "std"] }
clap = { version = "=4.6.7", default-features = false, features = ["derive", "std", "help", "usage"] }
color-eyre = { version = "=0.6.5", default-features = false }
crossterm = "=0.28.1"
dirs = "=6.0.0"
encoding_rs = "=0.8.44"
futures = "=0.3.34"
hf-hub = { version = "=0.4.3", default-features = false, features = ["ureq"] }
pulldown-cmark = { version = "=0.12.2", default-features = false, features = ["html"] }
ratatui = "=0.29.0"
reqwest = { version = "=0.12.28", default-features = false, features = ["json", "stream"] }
rusqlite = { version = "=0.32.1", features = ["bundled"] }
rust-embed = { version = "=8.13.0", default-features = false, features = ["interpolate-folder-path"] }
rust-mcp-sdk = { version = "=0.8.3", default-features = false, features = ["client", "stdio"] }
serde = { version = "=1.0.229", features = ["derive"] }
serde_json = { version = "=1.0.154", features = ["float_roundtrip"] }
thiserror = "=1.0.69"
tokio = { version = "=1.54.1", features = ["full"] }
tokio-stream = "=0.1.19"
tokio-util = "=0.7.20"
toml = "=0.8.23"
tui-textarea = "=0.7.0"
ureq = { version = "=2.12.1", default-features = false, features = ["tls"] }
