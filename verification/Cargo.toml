[package]
name = "mcfly"
version = "0.1.0"
edition = "2021"
publish = false

[dependencies]
unicode-segmentation = "=1.13.3"
regex = "=1.13.1"
path-absolutize = "=3.1.1"
shellexpand = "=3.1.2"
clap = { version = "=4.6.7", features = ["derive"] }
rusqlite = { version = "=0.41.1", features = ["bundled", "functions"] }
crossterm = "=0.27.0"
chrono = "=0.4.45"
chrono-systemd-time = "=0.4.0"
humantime = "=2.4.0"
csv = "=1.4.0"
serde = { version = "=1.0.229", features = ["derive"] }
serde_json = "=1.0.154"
rand = "=0.8.8"
config = "=0.14.1"
directories-next = "=2.0.0"
dirs = "=7.0.0"
libc = "=0.2.191"
relative-path = "=1.9.3"
