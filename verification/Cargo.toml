[package]
name = "kk"
version = "0.1.0"
edition = "2021"
publish = false

[dependencies]
anyhow = "1"
clap = { version = "4", features = ["derive", "env"] }
crossterm = "*"
directories = "*"
ratatui = "*"
rusqlite = "*"
tempfile = "3"
textwrap = "*"

[dev-dependencies]
regex = "1"
