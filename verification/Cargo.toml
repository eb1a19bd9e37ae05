[package]
name = "linkedin_ads"
version = "0.1.0"
edition = "2021"
publish = false

[dependencies]
serde_json = "1"
reqwest = { version = "0.12", default-features = false, features = ["blocking"] }
urlencoding = "2"
anyhow = "1"
clap = "4"
serde = { version = "1", features = ["derive"] }
tempfile = "3"
