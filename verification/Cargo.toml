[package]
name = "db_visualizer"
version = "1.0.1"
edition = "2021"
publish = false

[dependencies]
rusqlite = { version = "0.41", features = ["bundled"] }
serde = { version = "1", features = ["derive"] }
serde_json = "1"
tauri = { version = "2", default-features = false }
