[package]
name = "qemu-launcher"
version = "0.1.0"
edition = "2021"
publish = false

[dependencies]
json = "0.12"
nix = "0.19"
proc-mounts = "0.2"
rlimit = "0.5"
yaml-rust = "0.4"
