[package]
name = "iso_store"
version = "0.1.0"
edition = "2021"
publish = false

[dependencies]
bevy = { version = "0.17", default-features = false, features = ["std"] }
serde = { version = "1", features = ["derive"] }
serde_json = "1"
