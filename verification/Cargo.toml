[package]
name = "csv_validator"
version = "0.1.0"
edition = "2021"
publish = false

[dependencies]
csv = "*"
axum = { version = "*", features = ["multipart"] }
tokio = { version = "*", features = ["macros", "rt-multi-thread", "net"] }
tower-http = { version = "*", features = ["cors"] }
serde = { version = "*", features = ["derive"] }
bytes = "*"
