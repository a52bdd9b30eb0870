[package]
name = "fft-convolver-nostd"
version = "0.1.0"
edition = "2021"
publish = false

[dependencies]
microfft = { version = "0.6", features = ["size-4096"] }
