[package]
name = "linear_solver"
version = "0.1.0"
edition = "2021"
publish = false

[dependencies]
ndarray = "0.15"
num-complex = "0.4"
num-traits = "0.2"
sprs = { version = "0.11", default-features = false }
