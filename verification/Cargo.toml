[package]
name = "scope_tui"
version = "0.1.0"
edition = "2021"
publish = false

[dependencies]
ratatui = "*"
crossterm = "*"
clap = { version = "*", features = ["derive"] }
rustfft = "*"
