[package]
name = "dotman"
version = "0.1.0"
edition = "2021"
publish = false

[dependencies]
anyhow = "=1.0.104"
clap = { version = "=4.6.7", features = ["derive", "string"] }
clap-verbosity-flag = "=3.0.4"
colored = "=3.1.1"
env_logger = "=0.11.11"
home = "=0.5.12"
log = "=0.4.34"
