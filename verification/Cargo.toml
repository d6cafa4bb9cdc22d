[package]
name = "elmlog"
version = "0.22.0"
edition = "2021"
publish = false

[dependencies]
bincode = "1"
crossterm = "0.28"
dirs = "6"
fs2 = "0.4"
ratatui = "0.29"
serde = { version = "1", features = ["derive"] }
