[package]
name = "devimint"
version = "0.1.0"
edition = "2021"
publish = false

[dependencies]
anyhow = "1"
fedimint-core = "0.3.3"
fedimint-logging = "0.3.3"
tokio = { version = "1", features = ["macros", "rt", "sync"] }
tracing = "0.1"
