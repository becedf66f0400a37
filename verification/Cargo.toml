[package]
name = "gpg_ssh_keys"
version = "0.1.0"
edition = "2021"
publish = false

[dependencies]
env_logger = "*"
log = "*"
skim = "*"
tempfile = "*"
