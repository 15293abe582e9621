[package]
name = "modbus_bench"
version = "0.1.0"
edition = "2021"
publish = false

[dependencies]
anyhow = "=1.0.104"
log = "=0.4.35"
env_logger = "=0.11.11"
dirs = "=5.0.1"
serialport = { version = "=4.10.1", default-features = false }
tokio = { version = "=1.54.1", features = ["rt-multi-thread", "macros", "io-util", "time", "sync", "net"] }
tokio-serial = "=5.5.0"
ratatui = "=0.29.0"
crossterm = "=0.28.1"
axum = "0.8"
askama = "0.12"
tower-http = { version = "0.6", features = ["fs"] }
serde = { version = "1", features = ["derive"] }
rand = "0.8"
cursive = { version = "0.21", default-features = false, features = ["crossterm-backend"] }
