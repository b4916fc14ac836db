[package]
name = "whisper"
version = "0.1.0"
edition = "2021"
rust-version = "1.95"
publish = false

[dependencies]
aes-gcm = "=0.10.3"
anyhow = "1"
base64 = "=0.22.1"
clap = { version = "4", features = ["derive"] }
config = "0.15"
dotenvy = "0.15"
futures = "0.3"
hex = "=0.4.3"
rand = "0.9"
rig-core = "0.21"
rmcp = { version = "0.8", features = ["client", "reqwest", "transport-child-process", "transport-sse-client-reqwest", "transport-streamable-http-client-reqwest"] }
serde = { version = "1", features = ["derive"] }
serde_json = "1"
thiserror = "2"
tokio = { version = "1", features = ["full"] }
toml = "0.9"
tracing = "0.1"
tracing-appender = "0.2"
tracing-subscriber = { version = "0.3", features = ["env-filter"] }
