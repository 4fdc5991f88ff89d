[package]
name = "wavetable_designer"
version = "0.1.0"
edition = "2021"
publish = false

[dependencies]
hound = "3.5"
rustfft = "6.4"
num-complex = "0.4"
rand = "0.8"
parking_lot = "0.12"
rfd = "0.15"
