[package]
name = "chatvault"
version = "0.1.0"
edition = "2021"
publish = false

[dependencies]
blake3 = "1"
image = { version = "0.25", default-features = false, features = ["png", "jpeg", "gif", "webp", "bmp"] }
chrono = "0.4"
serde = { version = "1", features = ["derive"] }
serde_json = "1"
rusqlite = { version = "0.32", features = ["bundled"] }
uuid = { version = "1", features = ["v4"] }
tempfile = "3"
walkdir = "2"
