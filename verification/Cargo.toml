[package]
name = "ledcat"
version = "0.1.0"
edition = "2021"
publish = false

[dependencies]
clap = "=4.6.7"
libc = "=0.2.190"
net2 = "=0.2.39"
nix = { version = "=0.31.3", features = ["fs", "ioctl", "net", "poll", "socket", "term"] }
