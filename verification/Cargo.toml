[package]
name = "anime_bot"
version = "0.1.0"
edition = "2021"
publish = false

[dependencies]
serde = { version = "1", features = ["derive"] }
serde_yaml = "0.8"
postgres = "0.17"
reqwest = { version = "0.9", default-features = false, features = ["rustls-tls"] }
serenity = "0.8"
parking_lot = "0.11"
