[package]
name = "ai_assist"
version = "0.1.0"
edition = "2021"
publish = false

[dependencies]
anyhow = "=1.0.104"
blake3 = "1"
chrono = "0.4"
clap = { version = "4", features = ["derive"] }
dirs = "6"
meval = "0.2"
reqwest = { version = "0.12", features = ["blocking", "json"] }
serde = { version = "1", features = ["derive"] }
serde_json = "1"
toml = "0.8"
