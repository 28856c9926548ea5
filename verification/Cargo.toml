[package]
name = "leakbuster"
version = "0.1.0"
edition = "2021"
publish = false

[dependencies]
chrono = "*"
home = "*"
priority-queue = "*"
rusqlite = { version = "*", features = ["bundled"] }
serde = { version = "*", features = ["derive"] }
serde_yaml = "*"
structopt = "*"

[dev-dependencies]
tempfile = "*"
