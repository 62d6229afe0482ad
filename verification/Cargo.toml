[package]
name = "ppm"
version = "0.1.0"
edition = "2021"
publish = false

[dependencies]
anyhow = "*"
bytesize = "*"
chrono = "*"
clap = { version = "*", features = ["derive"] }
colored = "*"
croner = "*"
globset = "*"
humantime = "*"
humantime-serde = "*"
inotify = "*"
libc = "*"
serde = { version = "*", features = ["derive"] }
serde_json = "*"
serde_yaml_ng = "*"
sysinfo = "*"
