[package]
name = "uenv_server"
version = "0.1.0"
edition = "2021"
publish = false

[dependencies]
sha2 = "=0.10.9"
serde = { version = "=1.0.229", features = ["derive"] }
serde_json = "=1.0.154"
serde_yaml = "=0.9.34"
tokio = { version = "=1.54.1", features = ["rt-multi-thread", "macros", "sync", "time", "net", "io-util"] }
parking_lot = "=0.12.5"
anyhow = "=1.0.104"
uuid = { version = "=1.29.0", features = ["v4"] }
