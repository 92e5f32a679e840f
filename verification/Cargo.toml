[package]
name = "mahjong_core"
version = "0.1.0"
edition = "2021"
publish = false

[dependencies]
rand = "*"
uuid = { version = "*", features = ["v4"] }
chrono = "*"
anyhow = "*"
clap = { version = "*", features = ["derive"] }
crossterm = "*"
parquet = { version = "*", features = ["arrow"] }
arrow-array = "*"
arrow-schema = "*"
walkdir = "*"
