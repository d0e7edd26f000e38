[package]
name = "mer_matte"
version = "0.1.0"
edition = "2021"
publish = false

[dependencies]
rand = "=0.10.3"
uuid = { version = "=1.27.0", features = ["v4", "serde"] }
chrono = { version = "=0.4.45", features = ["serde"] }
serde = { version = "=1.0.229", features = ["derive"] }
serde_json = "=1.0.151"
