[package]
name = "completion_mock"
version = "0.1.0"
edition = "2021"
publish = false

[dependencies]
actix-web = "4"
anyhow = "1"
chrono = "0.4"
rand = "0.8"
serde = { version = "1", features = ["derive"] }
serde_json = "1"
tiktoken-rs = "*"
uuid = { version = "1", features = ["v4"] }
