[package]
name = "sysview"
version = "0.1.0"
edition = "2021"
publish = false

[dependencies]
color-eyre = "=0.6.5"
crossterm = { version = "=0.29.0", features = ["event-stream"] }
os_info = "=3.15.0"
rand = "0.9"
ratatui = "=0.30.2"
serde = { version = "=1.0.229", features = ["derive"] }
sysinfo = "0.37"
tokio = { version = "=1.54.1", features = ["full"] }
tokio-stream = "=0.1.19"
winreg = "=0.56.0"
wmi = "=0.18.4"
