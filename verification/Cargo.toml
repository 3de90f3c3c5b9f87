[package]
name = "uac2"
version = "0.1.0"
edition = "2021"
publish = false

[dependencies]
rusb = { version = "0.9", features = ["vendored"] }
thiserror = "1"
tracing = "0.1"
