[package]
name = "restitch"
version = "0.1.0"
edition = "2021"
publish = false

[dependencies]
chrono = "0.4"
clap = { version = "4", features = ["derive"] }
crossterm = "0.25"
dirs = "*"
flate2 = "1"
serde = { version = "1", features = ["derive"] }
shellexpand = "*"
tar = "0.4"
toml = "*"
tui = "0.19"
