[package]
name = "status_agent"
version = "0.1.0"
edition = "2021"
publish = false

[dependencies]
anyhow = "*"
async-trait = "*"
clap = { version = "*", features = ["derive"] }
env_logger = "*"
futures-util = "*"
log = "*"
reqwest = { version = "*", default-features = false, features = ["json", "rustls-tls"] }
serde = { version = "*", features = ["derive"] }
serde_derive = "*"
serde_json = "*"
tokio = { version = "*", features = ["full"] }
tokio-icmp-echo = "*"
toml = "*"
