[package]
name = "rustmark"
version = "0.1.0"
edition = "2021"
publish = false

[dependencies]
chrono = "*"
flume = "*"
parking_lot = "*"
serde = { version = "*", features = ["derive"] }
serde_json = "*"
tokio = { version = "*", features = ["macros", "rt-multi-thread", "sync", "time"] }
