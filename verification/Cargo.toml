[package]
name = "num_dual"
version = "0.1.0"
edition = "2021"
publish = false

[dependencies]
approx = "0.5"
nalgebra = "0.33"
num-traits = "0.2"
simba = "0.9"
