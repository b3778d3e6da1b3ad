[package]
name = "supervisord"
version = "0.1.0"
edition = "2021"
publish = false

[dependencies]
anyhow = "=1.0.104"
axum = "=0.8.9"
clap = { version = "=4.6.7", features = ["derive"] }
encoding_rs = "=0.8.44"
log = "=0.4.35"
nix = { version = "=0.29.0", features = ["signal"] }
serde = { version = "=1.0.229", features = ["derive"] }
serde_json = "=1.0.154"
tabled = "=0.20.0"
tokio = { version = "=1.54.1", features = ["full"] }
toolkit-rs = "=1.0.31"
windows-service = "0.8"
