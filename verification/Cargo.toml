[package]
name = "status_report"
version = "0.1.0"
edition = "2021"
publish = false

[dependencies]
chrono = "0.4"
custom_logger = "*"
reqwest = { version = "0.12", default-features = false, features = ["blocking"] }
serde = "1"
serde_derive = "1"
serde_json = "1"
