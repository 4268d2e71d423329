[package]
name = "gane"
version = "0.1.0"
edition = "2021"
publish = false

[dependencies]
chrono = { version = "=0.4.45", default-features = false, features = ["clock", "std"] }
uuid = { version = "=1.29.0", features = ["v4"] }
serde = { version = "=1.0.229", features = ["derive"] }
serde_json = "=1.0.154"
tracing-subscriber = { version = "=0.3.23", features = ["env-filter", "json"] }
parking_lot = "0.12"
thiserror = "1"
