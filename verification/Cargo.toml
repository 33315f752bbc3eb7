[package]
name = "music_folder"
version = "0.1.0"
edition = "2021"
publish = false

[dependencies]
uuid = { version = "1", features = ["v4"] }
sha2 = "0.10"
serde = { version = "1", features = ["derive"] }
serde_json = "1"
thiserror = "1"
anyhow = "1"
clap = { version = "4", features = ["derive"] }
crossbeam-channel = "0.5"
walkdir = "2"
lofty = "*"
rusqlite = { version = "*", features = ["bundled"] }
tracing-subscriber = { version = "0.3", features = ["env-filter"] }
