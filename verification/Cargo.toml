[package]
name = "span_storage"
version = "0.1.0"
edition = "2021"
publish = false

[dependencies]
serde_json = "*"
tracing = "*"
tracing-subscriber = "*"
