[package]
name = "rusty_httpd"
version = "1.0.0"
edition = "2021"
publish = false

[dependencies]
urlencoding = "*"
mtcp-rs = "*"
crossbeam-channel = "*"
ctrlc = "*"
env_logger = "*"
log = "*"
num_cpus = "*"
