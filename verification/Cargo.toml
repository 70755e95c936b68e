[package]
name = "metrology_insight"
version = "0.1.0"
edition = "2021"
publish = false

[dependencies]
log = "0.4"
ndarray = "0.15"
nix = { version = "0.29", features = ["ioctl"] }
num-complex = "0.4"
rand = "0.8"
realfft = "3"
signal-hook = "0.3"
