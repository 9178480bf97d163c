[package]
name = "ivfenc"
version = "0.1.0"
edition = "2021"
publish = false

[dependencies]
nix = "=0.26.4"
vpx-encode = "=0.6.2"
