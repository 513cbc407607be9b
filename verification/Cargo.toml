[package]
name = "ised"
version = "0.1.0"
edition = "2021"
publish = false

[dependencies]
crossterm = "*"
globset = "*"
itertools = "*"
notify = "*"
parking_lot = "*"
ratatui = "*"
rayon = "*"
regex = "*"
serde = { version = "*", features = ["derive"] }
tokio = { version = "*", features = ["rt-multi-thread", "macros"] }
toml = "*"
walkdir = "*"
