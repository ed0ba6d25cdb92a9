[package]
name = "downlint"
version = "0.1.0"
edition = "2021"
publish = false

[dependencies]
comrak = { version = "=0.35.0", default-features = false }
regex = "=1.13.1"
scraper = "=0.29.0"
linkify = "=0.10.0"
clap = { version = "=4.6.7", features = ["derive"] }
clap_complete = "=4.6.11"
colored = "=3.1.1"
crossbeam-channel = "=0.5.17"
etcetera = "=0.11.0"
ignore = "=0.4.33"
miette = { version = "=7.6.0", features = ["fancy"] }
serde = { version = "=1.0.229", features = ["derive"] }
toml = "=1.1.8"
