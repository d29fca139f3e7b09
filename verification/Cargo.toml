[package]
name = "fusebridge"
version = "0.1.0"
edition = "2021"
publish = false

[dependencies]
blocking = "1"
env_logger = "0.11"
libc = "0.2"
log = "0.4"
zbus = "5"
