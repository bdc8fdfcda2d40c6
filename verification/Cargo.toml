[package]
name = "devterminal"
version = "0.1.0"
edition = "2021"
publish = false

[dependencies]
chrono = "0.4"
ratatui = "0.29"
sysinfo = "0.33"
serde = { version = "1", features = ["derive"] }
toml = "0.8"
anyhow = "1"
