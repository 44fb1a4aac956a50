[package]
name = "hsf_softmodem"
version = "0.1.0"
edition = "2021"
publish = false

[dependencies]
num-complex = "*"
crossbeam-channel = "*"
log = "*"
env_logger = "*"
