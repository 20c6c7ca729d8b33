[package]
name = "write_local"
version = "0.1.0"
edition = "2021"
publish = false

[dependencies]
flume = { version = "0.11", default-features = false }
fs-err = "3"
tracing = "0.1"
