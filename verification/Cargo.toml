[package]
name = "rmididings"
version = "0.2.0"
edition = "2021"
publish = false

[dependencies]
rosc = "*"
libc = "*"
nix = { version = "*", features = ["signal", "fs"] }
alsa = "*"
