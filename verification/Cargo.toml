[package]
name = "sift"
version = "0.1.0"
edition = "2021"
publish = false

[dependencies]
sonic-rs = "*"
faststr = "*"
thiserror = "*"
log = "*"
env_logger = "*"
ext-php-rs = "*"
