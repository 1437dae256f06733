[package]
name = "alchemist"
version = "0.1.0"
edition = "2021"
publish = false

[dependencies]
anyhow = "1"
dirs = "6"
serde = { version = "1", features = ["derive"] }
tempfile = "3"
toml = "0.8"
