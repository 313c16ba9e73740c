[package]
name = "shaarlot"
version = "0.1.0"
edition = "2021"
publish = false

[dependencies]
urlencoding = "=2.1.3"
uuid = "=1.29.1"
chrono = "=0.4.45"
serde = { version = "=1.0.229", features = ["derive"] }
serde_urlencoded = "=0.7.1"
yew-router = "0.17"
