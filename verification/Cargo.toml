[package]
name = "hermes_core"
version = "0.1.0"
edition = "2021"
publish = false

[dependencies]
calamine = "*"
chrono = { version = "=0.4.45", default-features = false, features = ["std", "serde"] }
serde = { version = "=1.0.229", features = ["derive"] }
