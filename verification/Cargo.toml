[package]
name = "roost"
version = "0.1.0"
edition = "2021"
publish = false

[dependencies]
clap = { version = "4", features = ["derive"] }
clap_complete = "4"
color-eyre = "0.6"
crossterm = "0.28"
ctrlc = "3"
dialoguer = "0.11"
dirs = "6"
ratatui = "0.29"
serde = { version = "1", features = ["derive"] }
time = { version = "0.3", features = ["local-offset"] }
toml = "0.8"
