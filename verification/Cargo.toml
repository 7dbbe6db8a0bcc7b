[package]
name = "color-worker"
version = "0.1.0"
edition = "2021"
publish = false

[dependencies]
arrow-array = "*"
arrow-buffer = "*"
arrow-schema = "*"
env_logger = "*"
vgi = "*"
vgi-rpc = "*"
