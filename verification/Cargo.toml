[package]
name = "plasma"
version = "0.4.0"
edition = "2021"
publish = false

[dependencies]
glob = "0.3"
clap = { version = "4", features = ["derive"] }
serde = { version = "1", features = ["derive"] }
serde_json = "1"
toml = "0.8"
walkdir = "2"
thiserror = "1"
anyhow = "1"
