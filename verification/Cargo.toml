[package]
name = "pty_session"
version = "0.1.0"
edition = "2021"
publish = false

[dependencies]
base64 = "0.22"
portable-pty = "*"
serde = { version = "1", features = ["derive"] }
serde_json = "1"
chrono = { version = "0.4", features = ["serde"] }
uuid = { version = "1", features = ["v4"] }
