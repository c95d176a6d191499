[package]
name = "protocol_handlers"
version = "0.1.0"
edition = "2021"
publish = false

[dependencies]
fuse = "=0.3.1"
libc = "=0.2.191"
log = "=0.4.34"
rand = "=0.8.8"
spsc-bip-buffer = "=0.2.1"
structopt = "=0.3.26"
time = "=0.1.45"
