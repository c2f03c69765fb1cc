[package]
name = "prune"
version = "0.1.0"
edition = "2021"
publish = false

[dependencies]
chrono = "0.4"
uuid = { version = "1", features = ["v4"] }
serde = { version = "1", features = ["derive"] }
serde_json = "1"
clap = { version = "4", features = ["derive"] }
dirs = "*"
plist = "1"
rayon = "1"
sysinfo = "*"
thiserror = "*"
trash = "*"
walkdir = "2"
