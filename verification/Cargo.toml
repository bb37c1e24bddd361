[package]
name = "gattii"
version = "0.1.0"
edition = "2021"
publish = false

[dependencies]
chrono = "0.4"
clap = "2"
env_logger = "0.10"
log = "0.4"
serialport = { version = "3", default-features = false }
