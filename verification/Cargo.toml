[package]
name = "server_status"
version = "0.1.0"
edition = "2021"
publish = false

[dependencies]
tokio = { version = "=1.53.2", features = ["rt-multi-thread", "sync", "time", "net", "macros"] }
reqwest = { version = "=0.12.28", default-features = false }
notify = "=8.2.0"
rcon = { version = "=0.6.0", features = ["rt-tokio"] }
serde = { version = "=1.0.229", features = ["derive"] }
serde_json = "=1.0.151"
futures = "=0.3.34"
