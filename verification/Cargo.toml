[package]
name = "dotfiles_tools"
version = "0.1.0"
edition = "2021"
publish = false

[dependencies]
anyhow = "=1.0.104"
clap = { version = "=4.6.7", features = ["derive"] }
dirs = "=7.0.0"
serde = { version = "=1.0.229", features = ["derive"] }
serde_json = "=1.0.154"
sha2 = "=0.10.9"
toml = "=1.1.8"
urlencoding = "=2.1.3"
ureq = "*"
xml = "*"
