[package]
name = "vbus_logger"
version = "0.1.0"
edition = "2021"
publish = false

[dependencies]
resol-vbus = "*"
mysql = "*"
serial = "*"
toml = "*"
serde = { version = "*", features = ["derive"] }
