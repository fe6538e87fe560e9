[package]
name = "smithay_client_toolkit"
version = "0.1.0"
edition = "2021"
publish = false

[dependencies]
log = "0.4"
memmap2 = "0.5"
nix = "0.26"
wayland-backend = "0.1"
wayland-client = "0.30"
