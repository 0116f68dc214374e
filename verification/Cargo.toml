[package]
name = "lancedb_viewer"
version = "0.1.0"
edition = "2021"
publish = false

[dependencies]
arrow = { version = "=60.0.0", default-features = false, features = ["json"] }
dirs = "=7.0.0"
futures = "=0.3.34"
rfd = "*"
serde = { version = "=1.0.229", features = ["derive"] }
serde_json = "=1.0.154"
walkdir = "=2.5.0"

[dev-dependencies]
tempfile = "=3.27.0"
