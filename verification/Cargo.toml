[package]
name = "evergreen_rs"
version = "0.1.0"
edition = "2021"
publish = false

[dependencies]
json = "0.12"
serde = { version = "1", features = ["derive"] }
serde_json = "1"
serde_yaml = "0.9"
structopt = "0.3"
reqwest = { version = "0.12", default-features = false, features = ["blocking"] }
dirs = "6"
regex = "1"
anyhow = "1"
