[package]
name = "thumed_helper"
version = "0.1.0"
edition = "2021"
publish = false

[dependencies]
clap = { version = "4", features = ["derive"] }
crossterm = "0.28"
dirs = "5"
ratatui = { version = "0.29", features = ["unstable-rendered-line-info"] }
