[package]
name = "domo"
version = "0.1.0"
edition = "2021"
publish = false

[dependencies]
regex = "1"
reqwest = "0.11"
tokio = { version = "1", features = ["full"] }
futures = "0.3"
clap = "3"
chrono = "0.4"
