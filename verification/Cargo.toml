[package]
name = "accordo"
version = "0.1.0"
edition = "2021"
publish = false

[dependencies]
clap = { version = "4", features = ["derive"] }
crossterm = "*"
nix = { version = "*", features = ["fs", "process", "signal", "term"] }
portable-pty = "*"
ratatui = "*"
serde = { version = "1", features = ["derive"] }
serde-saphyr = "*"
tokio = { version = "1", features = ["full"] }
tui-term = "*"

[dev-dependencies]
tempfile = "3"
