[package]
name = "kannolo"
version = "0.1.0"
edition = "2021"
publish = false

[dependencies]
clap = { version = "4", features = ["derive"] }
half = "2"
ndarray = "*"
ndarray-npy = "*"
num-traits = "0.2"
numpy = "*"
pyo3 = { version = "*", features = ["abi3-py39", "extension-module"] }
rand = "0.8"
rayon = "1"
serde = { version = "1", features = ["derive"] }
