[package]
name = "jack_fourier"
version = "0.1.0"
edition = "2021"
publish = false

[dependencies]
cairo-rs = "0.4"
dft = "=0.5.5"
easyjack = "=0.1.2"
gio = "0.4"
gtk = "0.4"
nix = { version = "=0.31.3", features = ["signal"] }
