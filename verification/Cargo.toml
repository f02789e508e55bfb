[package]
name = "ghostteam"
version = "0.2.0"
edition = "2021"
publish = false

[dependencies]
anyhow = "=1.0.104"
axum = { version = "=0.7.9", features = ["ws"] }
clap = { version = "=4.6.7", features = ["derive"] }
env_logger = "=0.11.11"
log = "=0.4.35"
reqwest = { version = "=0.12.28", default-features = false, features = ["json", "blocking", "rustls-tls"] }
rusqlite = { version = "=0.31.0", features = ["bundled"] }
serde = { version = "=1.0.229", features = ["derive"] }
serde_json = "=1.0.154"
serde_yaml = "=0.9.34"
thiserror = "=1.0.69"
time = { version = "=0.3.55", features = ["formatting"] }
tokio = { version = "=1.54.1", features = ["full"] }
tokio-tungstenite = "=0.24.0"
