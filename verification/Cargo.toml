[package]
name = "rexpect"
version = "0.4.0"
edition = "2021"
publish = false

[dependencies]
regex = "*"
nix = "0.22"
tempfile = "*"
