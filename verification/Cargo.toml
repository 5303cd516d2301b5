[package]
name = "radius_index"
version = "0.1.0"
edition = "2021"
publish = false

[dependencies]
kiddo = "5.3.3"
rayon = "=1.12.0"
pyo3 = "=0.30.1"
numpy = "=0.30.0"
