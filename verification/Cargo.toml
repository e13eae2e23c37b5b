[package]
name = "sentence_service"
version = "0.1.0"
edition = "2021"
publish = false

[dependencies]
uuid = { version = "1", features = ["v4"] }
rocket = { version = "0.5", features = ["json"] }
serde = { version = "1", features = ["derive"] }
