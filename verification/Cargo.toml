[package]
name = "monitorhop"
version = "0.1.0"
edition = "2021"
publish = false

[dependencies]
anyhow = "1"
serde = { version = "1", features = ["derive"] }
serde_json = "1"
log = "0.4"
simplelog = "0.12"
clap = { version = "4", features = ["derive"] }
rusb = "0.9"
ddc-hi = "0.4"
winapi = { version = "0.3", features = ["winuser", "wincon", "libloaderapi", "minwindef", "windef", "ntdef"] }
