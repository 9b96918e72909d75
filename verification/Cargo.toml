[package]
name = "dy_weekly_generator"
version = "0.2.0"
edition = "2021"
publish = false

[dependencies]
regex = "1"
yaml-rust = "0.4"
json = "0.12"
clap = "2"
reqwest = { version = "0.11", features = ["blocking"] }
