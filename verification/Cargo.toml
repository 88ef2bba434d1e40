[package]
name = "hid_bpf"
version = "0.1.0"
edition = "2021"
publish = false

[dependencies]
anyhow = "1"
libbpf-rs = "0.23"
libbpf-sys = "1.4"
libc = "0.2"
log = "0.4"
