[package]
name = "iscp"
version = "0.1.0"
edition = "2021"
publish = false

[dependencies]
clap = "=4.6.7"
futures = "=0.3.34"
reqwest = "=0.12.28"
scraper = "=0.29.0"
serde_json = "=1.0.154"
tokio = { version = "=1.54.1", features = ["full"] }
