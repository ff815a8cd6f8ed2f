[package]
name = "signal_processing"
version = "0.1.0"
edition = "2021"
publish = false

[dependencies]
num-complex = "*"
num_cpus = "*"
rayon = "*"
rustfft = "*"
