[package]
name = "linkvault"
version = "0.1.0"
edition = "2021"
publish = false

[dependencies]
sled = { version = "=0.34.7", features = ["compression"] }
rand = "=0.8.8"
chrono = "=0.4.45"
walkdir = "=2.5.0"
rayon = "=1.12.0"
serde = { version = "=1.0.229", features = ["derive"] }
serde_json = "=1.0.151"
