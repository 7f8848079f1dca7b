[package]
name = "flight_tracker"
version = "0.1.0"
edition = "2021"
publish = false

[dependencies]
adsb = "*"
anyhow = "*"
clap = { version = "*", features = ["derive"] }
