[package]
name = "rodomopo"
version = "0.1.0"
edition = "2021"
publish = false

[dependencies]
chrono = "0.4"
dirs = "*"
serde = { version = "*", features = ["derive"] }
serde_yaml = "*"
rustyline = "*"
