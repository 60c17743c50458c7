[package]
name = "tracing_datadog_apm"
version = "0.1.0"
edition = "2021"
publish = false

[dependencies]
rand = "*"
serde = { version = "*", features = ["derive"] }
serde_json = "*"
reqwest = { version = "*", features = ["blocking"], default-features = false }
tracing = "*"
tracing-core = "*"
