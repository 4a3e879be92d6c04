[package]
name = "rate_limiter"
version = "0.1.0"
edition = "2021"
publish = false

[dependencies]
serde_json = "1"
worker = "*"
tracing-subscriber = { version = "*", features = ["json", "time"] }
tracing-web = "*"
