[package]
name = "blake"
version = "0.1.0"
edition = "2021"
publish = false

[dependencies]
ansi-to-tui = "*"
anyhow = "*"
crossterm = "*"
dirs = "*"
git2 = { version = "*", default-features = false }
ratatui = "*"
serde = { version = "*", features = ["derive"] }
thiserror = "*"
toml = "*"
which = "*"
