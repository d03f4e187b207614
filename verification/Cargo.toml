[package]
name = "tt_rs"
version = "0.1.0"
edition = "2021"
publish = false

[dependencies]
anyhow = "*"
crossterm = "*"
rand = "*"
ratatui = "*"
ron = "*"
