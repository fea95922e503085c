[package]
name = "agentkernel"
version = "0.1.0"
edition = "2021"
publish = false

[dependencies]
anyhow = "=1.0.104"
base64 = "=0.22.1"
chrono = "=0.4.45"
dirs = "=5.0.1"
hex = "=0.4.3"
jsonwebtoken = "=9.3.1"
reqwest = { version = "=0.12.28", default-features = false, features = ["json"] }
serde = { version = "=1.0.229", features = ["derive"] }
serde_json = "=1.0.154"
sha2 = "=0.10.9"
tokio = { version = "=1.54.1", features = ["rt", "macros", "time", "sync"] }
urlencoding = "=2.1.3"
uuid = { version = "1", features = ["v4", "v7"] }
