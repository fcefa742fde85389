[package]
name = "salatui"
version = "0.1.0"
edition = "2021"
publish = false

[dependencies]
chrono = "0.4"
clap = { version = "4", features = ["derive"] }
confy = "*"
crossterm = "0.28"
directories = "*"
notify-rust = "4"
ratatui = "0.29"
salah = "*"
serde = { version = "1", features = ["derive"] }
