[package]
name = "mini-agent"
version = "0.1.0"
edition = "2021"
publish = false

[dependencies]
axum = "0.7"
clap = { version = "4", features = ["derive"] }
futures = "0.3"
lipsum = "0.9"
reqwest = { version = "0.12", default-features = false, features = ["json", "rustls-tls"] }
serde = { version = "1", features = ["derive"] }
serde_json = "1"
sysinfo = "0.29"
tokio = { version = "1", features = ["full"] }
toml = "0.8"
tracing = "0.1"
tracing-subscriber = "0.3"
