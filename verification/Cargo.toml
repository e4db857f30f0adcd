[package]
name = "audiolyzer"
version = "0.1.0"
edition = "2021"
publish = false

[dependencies]
ratatui = "0.29"
cpal = "0.15"
clap = { version = "4", features = ["derive"] }
apodize = "1"
realfft = "3"
