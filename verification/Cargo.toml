[package]
name = "yed"
version = "0.1.0"
edition = "2021"
publish = false

[dependencies]
anyhow = "*"
base64 = "*"
clap = { version = "*", features = ["derive"] }
crossterm = "*"
ratatui = "*"
unicode-width = "*"
yaml-rust2 = "*"
