[package]
name = "coverage_mon"
version = "0.1.0"
edition = "2021"
publish = false

[dependencies]
serde = "1"
serde_json = "1"
log = "*"
env_logger = "*"
config = "=0.1.3"
hyper = "=0.10.16"
trellis = "*"
hd44780 = "*"
