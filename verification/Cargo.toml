[package]
name = "roadwork"
version = "0.1.0"
edition = "2021"
publish = false

[dependencies]
serde = { version = "=1.0.229", features = ["derive"] }
serde_json = "=1.0.151"
jsonpath-rust = "=1.0.11"
regex = "=1.13.1"
chrono = "=0.4.45"
chrono-tz = "=0.10.4"
base64 = "=0.23.1"
urlencoding = "=2.1.3"
reqwest = { version = "=0.13.5", default-features = false, features = ["blocking", "json"] }
home = "=0.5.12"
unicode-normalization = "*"
