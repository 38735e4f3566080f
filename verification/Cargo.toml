[package]
name = "gift"
version = "0.1.0"
edition = "2021"
publish = false

[dependencies]
rand = "0.8"
mp3-duration = "0.1"
serde = { version = "1", features = ["derive"] }
serde_json = "1"
ratatui = "0.29"
crossterm = "0.28"
rodio = "0.19"
