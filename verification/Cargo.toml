[package]
name = "music_library"
version = "0.1.0"
edition = "2021"
publish = false

[dependencies]
lofty = "0.22"
rodio = "0.20"
rusqlite = { version = "0.32", features = ["bundled"] }
serde = { version = "1", features = ["derive"] }
tokio = { version = "1", features = ["rt", "sync"] }
walkdir = "2"
