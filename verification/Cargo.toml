[package]
name = "turmy"
version = "0.1.0"
edition = "2021"
publish = false

[dependencies]
crossbeam-channel = "0.5"
crossterm = { version = "0.29", features = ["osc52"] }
flate2 = "1"
notify = "8"
ratatui = "0.30"
semver = "1"
serde = { version = "1", features = ["derive"] }
sha2 = "0.10"
tar = "0.4"
tempfile = "3"
tui-input = "*"
unicode-segmentation = "1"
unicode-width = "0.2"
ureq = { version = "3", features = ["json"] }
