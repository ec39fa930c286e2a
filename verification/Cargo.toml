[package]
name = "rsdata"
version = "0.1.0"
edition = "2021"
publish = false

[dependencies]
clap = { version = "=4.6.7", features = ["derive"] }
globset = "=0.4.21"
humantime = "=2.4.0"
ignore = "0.4"
regex = "=1.13.1"
serde = { version = "=1.0.229", features = ["derive"] }
serde_json = "=1.0.154"
walkdir = "=2.5.0"
windows-sys = { version = "=0.61.2", features = ["Win32_Foundation", "Win32_System_Console"] }
