[package]
name = "viking_io"
version = "0.1.0"
edition = "2021"
publish = false

[dependencies]
nusb = "*"
async-lock = "*"
embedded-hal-async = "*"
log = "*"
thiserror = "*"
zerocopy = { version = "*", features = ["derive"] }
env_logger = "*"
futures-lite = "*"
