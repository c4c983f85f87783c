[package]
name = "version_guard"
version = "0.1.0"
edition = "2021"
publish = false

[dependencies]
serde = { version = "1", features = ["derive"] }
sysinfo = { version = "0.30", default-features = false }
walkdir = "2"
