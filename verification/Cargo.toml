[package]
name = "vsdown"
version = "0.1.0"
edition = "2021"
publish = false

[dependencies]
anyhow = "=1.0.104"
clap = { version = "=3.2.25", features = ["derive"] }
console = "=0.15.11"
flate2 = "=1.1.10"
indicatif = "0.17"
progress-streams = "=1.1.0"
reqwest = { version = "=0.11.27", features = ["blocking", "json"] }
serde = { version = "=1.0.229", features = ["derive"] }
tar = "=0.4.46"
