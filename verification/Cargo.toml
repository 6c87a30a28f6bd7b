[package]
name = "pstexplorer"
version = "0.1.0"
edition = "2021"
publish = false

[dependencies]
chrono = "0.4"
clap = { version = "4", features = ["derive"] }
compressed-rtf = "*"
crossterm = "0.28"
outlook-pst = "*"
ratatui = "0.29"
rtf-parser = "0.4"
rusqlite = { version = "*", features = ["bundled"] }
serde = { version = "1", features = ["derive"] }
serde_json = "1"
