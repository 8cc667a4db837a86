[package]
name = "specmate"
version = "0.1.0"
edition = "2021"
publish = false

[dependencies]
glob = "0.3"
clap = { version = "4", features = ["derive"] }
serde = { version = "1", features = ["derive"] }
serde_yaml = "0.9"
walkdir = "2"
git2 = { version = "*", default-features = false }
anyhow = "1"
thiserror = "*"

[dev-dependencies]
tempfile = "3"
