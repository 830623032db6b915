[package]
name = "gview"
version = "0.1.0"
edition = "2021"
publish = false

[dependencies]
git2 = "*"
fuzzy-matcher = "*"
regex = "*"
ratatui = "*"
crossterm = "*"
clap = { version = "*", features = ["derive"] }
color-eyre = "*"
