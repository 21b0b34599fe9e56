[package]
name = "slayfi"
version = "0.1.0"
edition = "2021"
publish = false

[dependencies]
chrono = { version = "0.4", default-features = false, features = ["clock"] }
env_logger = { version = "0.11", default-features = false }
freedesktop-file-parser = "*"
freedesktop-icons = "*"
gtk = "0.18"
log = "0.4"
serde = { version = "1", features = ["derive"] }
walkdir = "2"
