[package]
name = "content_engine"
version = "0.1.0"
edition = "2021"
publish = false

[dependencies]
chrono = "*"
jsonwebtoken = "*"
rand = "*"
serde = { version = "*", features = ["derive"] }
serde_json = "*"
sha2 = "*"
unicode-segmentation = "*"
