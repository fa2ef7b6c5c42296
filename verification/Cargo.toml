[package]
name = "serial_screen"
version = "0.1.0"
edition = "2021"
publish = false

[dependencies]
anyhow = "1"
chrono = "0.4"
fastwebsockets = { version = "0.4", features = ["upgrade"] }
hyper = { version = "0.14", features = ["client", "http1"] }
reqwest = { version = "0.11", default-features = false, features = ["json"] }
rppal = "*"
serde = { version = "1", features = ["derive"] }
serde_json = "1"
tokio = { version = "1", features = ["rt-multi-thread", "macros", "time", "sync", "net", "io-util"] }
