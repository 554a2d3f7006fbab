[package]
name = "byte_stream"
version = "0.1.0"
edition = "2021"
publish = false

[dependencies]
bytes = "1"
futures = "0.3"
pin-project-lite = "0.2"
tokio = { version = "1", features = ["rt", "rt-multi-thread", "io-util"] }
