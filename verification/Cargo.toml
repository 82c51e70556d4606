[package]
name = "thread_requirement"
version = "0.1.0"
edition = "2021"
publish = false

[dependencies]
uuid = "1"
serde = { version = "1", features = ["derive"] }
schemars = "*"
ts-rs = "*"
ratatui = "*"
axum = "*"
