[package]
name = "flashrom_tester"
version = "0.1.0"
edition = "2021"
publish = false

[dependencies]
chrono = "*"
clap = "*"
env_logger = "*"
log = "*"
sys-info = "*"
