[package]
name = "rhask"
version = "0.1.0"
edition = "2021"
publish = false

[dependencies]
clap = { version = "4", features = ["derive"] }
clap_complete = "4"
env_logger = "*"
indexmap = "2"
log = "0.4"
rhai = { version = "1", features = ["sync"] }
rhai-process = "*"
