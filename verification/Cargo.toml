[package]
name = "pulse_vis"
version = "0.1.0"
edition = "2021"
publish = false

[dependencies]
anyhow = "1"
clap = { version = "4", features = ["derive"] }
crossterm = "*"
dirs = "*"
libc = "0.2"
libpulse-binding = "2"
ratatui = "*"
realfft = "3"
rustfft = "6"
serde = { version = "1", features = ["derive"] }
serde_json = "1"
signal-hook = "0.3"
termios = "0.3"
toml = "*"
