[package]
name = "packrat"
version = "0.1.0"
edition = "2021"
publish = false

[dependencies]
sled = "0.34"
uuid = { version = "1", features = ["v4"] }
chrono = "0.4"
clap = { version = "4", features = ["derive"] }
crossterm = "0.25"
tui = "0.19"
csv = "1"
tempfile = "3"

[dev-dependencies]
tempfile = "3"
