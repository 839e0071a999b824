[package]
name = "termarium"
version = "0.1.0"
edition = "2021"
publish = false

[dependencies]
unicode-width = "0.2"
chrono = { version = "=0.4.45", default-features = false, features = ["std", "clock"] }
chrono-tz = "=0.10.4"
clap = { version = "=4.6.7", features = ["derive"] }
serde = { version = "=1.0.229", features = ["derive"] }
serde_json = "=1.0.154"
directories = "=5.0.1"
ratatui = { version = "0.29", default-features = false }
