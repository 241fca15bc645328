[package]
name = "hello_user"
version = "0.1.0"
edition = "2021"
publish = false

[dependencies]
serde_json = { version = "=1.0.151", features = ["arbitrary_precision"] }
chrono = "=0.4.45"
chrono-tz = "=0.10.4"
color-eyre = "=0.6.5"
crossterm = "=0.28.1"
ratatui = "=0.28.1"
tui-textarea = "=0.6.1"
open-meteo-api = "=0.1.4"
