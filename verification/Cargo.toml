[package]
name = "toy_dns_lib"
version = "0.1.0"
edition = "2021"
publish = false

[dependencies]
rand = "=0.8.5"
rand_chacha = "=0.3.1"
clap = { version = "4", features = ["derive"] }
env_logger = "0.11"
log = "0.4"
