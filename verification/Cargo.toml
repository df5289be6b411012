[package]
name = "cfptime"
version = "0.1.0"
edition = "2021"
publish = false

[dependencies]
anyhow = "*"
reqwest = { version = "*", default-features = false }
reqwest-middleware = "*"
reqwest-retry = "*"
reqwest-tracing = "*"
serde = { version = "*", features = ["derive"] }
serde_json = "*"
