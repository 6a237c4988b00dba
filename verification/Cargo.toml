[package]
name = "star_rail_settings"
version = "0.1.0"
edition = "2021"
publish = false

[dependencies]
crossterm = "0.28"
ratatui = "0.29"
serde = "1"
serde_json = "1"
winreg = "0.52"
