[package]
name = "grok_tools"
version = "0.1.0"
edition = "2021"
publish = false

[dependencies]
anyhow = "1"
async-openai = { version = "=0.43.0", default-features = false, features = ["response-types"] }
async-trait = "0.1"
base64 = "=0.22.1"
chrono = "=0.4.45"
dirs = "6"
futures = "0.3"
indexmap = { version = "=2.14.2", features = ["serde"] }
parking_lot = "0.12"
reqwest = { version = "=0.12.28", default-features = false, features = ["json"] }
serde = { version = "1", features = ["derive"] }
serde_json = "=1.0.154"
tempfile = "3"
tokio = { version = "1", features = ["rt", "sync", "time", "macros", "fs"] }
tokio-util = "0.7"
tracing = "0.1"
url = "=2.5.8"
uuid = { version = "=1.29.0", features = ["v4", "v7"] }
