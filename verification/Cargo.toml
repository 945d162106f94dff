[package]
name = "badge_flasher"
version = "0.1.0"
edition = "2021"
publish = false

[dependencies]
base64 = "0.22"
color-eyre = "0.6"
crossterm = "0.28"
ratatui = "0.29"
reqwest = { version = "0.12", default-features = false, features = ["blocking", "json", "rustls-tls"] }
serde = { version = "1", features = ["derive"] }
serialport = { version = "4", default-features = false }
