[package]
name = "seismometer"
version = "0.1.0"
edition = "2021"
publish = false

[dependencies]
anyhow = "*"
ctrlc = "*"
serde = { version = "*", features = ["derive"] }
serialport = { version = "*", default-features = false }
toml = "*"
