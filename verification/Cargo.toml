[package]
name = "serde_ipc"
version = "0.1.0"
edition = "2021"
publish = false

[dependencies]
bincode = "=1.3.3"
log = "=0.4.34"
serde = "=1.0.229"
shared_memory = "=0.10.0"
simple_logger = "=1.16.0"
snafu = "=0.6.10"
