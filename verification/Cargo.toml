[package]
name = "tipbot_core"
version = "0.1.0"
edition = "2021"
publish = false

[dependencies]
directories = "*"
dotenvy = "*"
futures = "*"
serde = { version = "*", features = ["derive"] }
serde_json = "*"
tokio = { version = "*", features = ["full"] }
tracing = "*"
