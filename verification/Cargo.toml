[package]
name = "models_tui"
version = "0.1.0"
edition = "2021"
publish = false

[dependencies]
unicode-width = "=0.2.3"
ratatui = "=0.30.2"
crossterm = "=0.29.0"
anyhow = "1"
arboard = { version = "3", default-features = false }
open = "5"
