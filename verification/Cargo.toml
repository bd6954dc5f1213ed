[package]
name = "envtool"
version = "0.1.0"
edition = "2021"
publish = false

[dependencies]
xml = "0.8"
rand = "0.8"
chrono = { version = "0.4", default-features = false }
anyhow = "1"
