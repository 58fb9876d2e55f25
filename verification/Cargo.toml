[package]
name = "term_ide"
version = "0.1.0"
edition = "2021"
publish = false

[dependencies]
regex = "=1.13.1"
ratatui = "=0.29.0"
crossterm = "=0.28.1"
serde = { version = "=1.0.229", features = ["derive"] }
serde_json = "=1.0.154"
toml = "=0.8.23"
thiserror = "=1.0.69"
dirs = "=5.0.1"
crossbeam-channel = "=0.5.17"
parking_lot = "=0.12.5"
arboard = "=3.7.0"
ureq = { version = "=2.12.1", features = ["json"] }
pulldown-cmark = "=0.12.2"
syntect = { version = "=5.3.0", default-features = false, features = ["default-fancy"] }
vt100 = "=0.15.2"
portable-pty = "=0.8.1"
notify = "=6.1.1"
