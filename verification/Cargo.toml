[package]
name = "mcsniff"
version = "0.1.0"
edition = "2021"
publish = false

[dependencies]
flate2 = "*"
flume = "*"
pcap = "*"
log = "*"
env_logger = "*"
color-eyre = "*"
owo-colors = "*"
itertools = "*"
uuid = "*"
thiserror = "*"

[dev-dependencies]
