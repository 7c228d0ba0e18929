[package]
name = "request_pipeline"
version = "0.1.0"
edition = "2021"
publish = false

[dependencies]
tower = { version = "*", features = ["retry", "timeout", "limit", "util"] }
