[package]
name = "flasher"
version = "0.1.0"
edition = "2021"
publish = false

[dependencies]
capstone = "*"
log = "0.4"
thiserror = "1.0"
