[package]
name = "android_readout"
version = "0.1.0"
edition = "2021"
publish = false

[dependencies]
itertools = "0.10"
libc = "0.2"
num_cpus = "1"
