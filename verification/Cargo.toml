[package]
name = "procmon"
version = "0.1.0"
edition = "2021"
publish = false

[dependencies]
crossterm = "0.25"
tui = "0.19"
sysinfo = "0.26"
toml = "0.5"
serde = { version = "1", features = ["derive"] }
