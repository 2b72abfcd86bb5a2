[package]
name = "walrust"
version = "0.1.0"
edition = "2021"
publish = false

[dependencies]
anyhow = "=1.0.104"
crossterm = "=0.29.0"
image = "=0.25.10"
log = "=0.4.34"
ratatui = "=0.30.2"
ratatui-image = { version = "=11.1.0", default-features = false, features = ["image-defaults", "crossterm"] }
serde_json = "=1.0.151"
simplelog = "=0.12.2"
