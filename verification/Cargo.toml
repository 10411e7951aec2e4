[package]
name = "raknet"
version = "0.1.0"
edition = "2021"
publish = false

[dependencies]
async-std = "1"
byte-order = "*"
chrono = "0.4"
env_logger = "0.10"
log = "0.4"
rand = "0.8"
