[package]
name = "ma_keyboard"
version = "0.1.0"
edition = "2021"
publish = false

[dependencies]
rand = { version = "0.9", features = ["small_rng"] }
anyhow = "1"
chrono = "0.4"
crossterm = "0.28"
