[package]
name = "reminder"
version = "0.1.0"
edition = "2021"

[dependencies]
chrono = "*"
rusqlite = { version = "*", features = ["bundled"] }
clap = { version = "*", features = ["derive"] }
cli-table = "*"
