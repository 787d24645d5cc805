[package]
name = "champr"
version = "0.1.0"
edition = "2021"
publish = false

[dependencies]
anyhow = "1"
futures = "0.3"
iced = { version = "0.4", features = ["image", "tokio"] }
regex = "1"
reqwest = { version = "0.11", features = ["json"] }
serde = { version = "1", features = ["derive"] }
serde_json = "1"
serde_with = "1"
tinyfiledialogs = "3"
tokio = { version = "1", features = ["full"] }
tracing-subscriber = "0.3"
