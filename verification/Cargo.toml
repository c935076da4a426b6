[package]
name = "syncbook"
version = "0.1.0"
edition = "2021"
publish = false

[dependencies]
anyhow = "1"
clap = { version = "4", features = ["derive"] }
dirs = "5"
serde_json = "1"
sha2 = "0.10"
