[package]
name = "satr"
version = "0.1.0"
edition = "2021"
publish = false

[dependencies]
zip = "*"
quick-xml = { version = "*", features = ["serialize"] }
serde = { version = "*", features = ["derive"] }
walkdir = "*"
clap = { version = "*", features = ["derive"] }
chrono = "*"
Lotus = "*"
