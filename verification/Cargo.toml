[package]
name = "llm-proxy-manager"
version = "0.1.0"
edition = "2021"
publish = false

[dependencies]
url = "=2.5.8"
chrono = { version = "=0.4.45", default-features = false, features = ["clock", "std"] }
rand = "=0.8.8"
uuid = { version = "=1.29.1", features = ["v4"] }
serde = { version = "=1.0.229", features = ["derive"] }
serde_json = "=1.0.154"
tokio = { version = "=1.54.1", features = ["sync", "net", "io-util", "time", "macros", "rt", "process"] }
reqwest = { version = "=0.12.28", default-features = false, features = ["json", "stream"] }
axum = "=0.7.9"
futures = "=0.3.34"
bytes = "=1.12.1"
async-stream = "=0.3.6"
async-trait = "=0.1.92"
sha2 = "0.10"
base64 = "0.22"
