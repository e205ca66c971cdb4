[package]
name = "voice_server"
version = "0.1.0"
edition = "2021"
publish = false

[dependencies]
serde_json = "1"
base64 = "0.22"
dashmap = "6"
serde = { version = "1", features = ["derive"] }
serde_yaml = "0.9"
reqwest = { version = "0.12", default-features = false, features = ["json", "multipart", "stream"] }
async-tungstenite = { version = "*", features = ["tokio-runtime"] }
futures-util = "0.3"
tokio = { version = "1", features = ["full"] }
tokio-util = "0.7"
actix-web = { version = "4", default-features = false, features = ["macros"] }
actix-ws = "*"
actix-files = "*"
async-stream = "0.3"
async-trait = "0.1"
clap = { version = "4", features = ["derive"] }
anyhow = "1"
thiserror = "*"
parking_lot = "0.12"
prometheus = { version = "*", default-features = false }
redis = { version = "*", features = ["tokio-comp"] }
tracing = "0.1"
async-openai = "*"
