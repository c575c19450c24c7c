[package]
name = "byteserde"
version = "0.1.0"
edition = "2021"
publish = false

[dependencies]
bytes = "=1.12.1"
serde = { version = "=1.0.229", features = ["derive"] }
syn = "=3.0.9"
quote = "=1.0.47"
proc-macro2 = "=1.0.107"
