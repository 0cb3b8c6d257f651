[package]
name = "xleak"
version = "0.2.6"
edition = "2021"
publish = false

[dependencies]
anyhow = "1"
calamine = "*"
chrono = { version = "0.4", default-features = false, features = ["alloc"] }
clap = { version = "4", features = ["derive"] }
comfy-table = "7"
crossterm = "*"
csv = "1"
ratatui = "*"
