[package]
name = "pc_telemetry"
version = "0.1.0"
edition = "2021"

[dependencies]
sysinfo = "*"
hostname = "*"
local-ip-address = "*"
clap = { version = "*", features = ["derive"] }
env_logger = "*"
log = "*"

[dev-dependencies]
serde_json = "*"
