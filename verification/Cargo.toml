[package]
name = "comfybox"
version = "0.1.0"
edition = "2021"
publish = false

[dependencies]
anyhow = "1"
clap = { version = "4.5", features = ["derive"] }
console = "=0.15.11"
crossterm = "=0.28.1"
directories = "=5.0.1"
futures = "0.3"
hex = "=0.4.3"
inquire = "=0.7.5"
ratatui = "=0.29.0"
reqwest = { version = "=0.12.28", default-features = false, features = ["json", "stream", "rustls-tls"] }
serde = { version = "1", features = ["derive"] }
serde_json = "=1.0.154"
sha2 = "=0.11.1"
sysinfo = "=0.33.1"
tokio = { version = "1", features = ["full"] }
toml = "=0.8.23"
tracing-subscriber = { version = "0.3", features = ["env-filter"] }
urlencoding = "=2.1.3"
uuid = { version = "=1.29.0", features = ["v4"] }
walkdir = "=2.5.0"
