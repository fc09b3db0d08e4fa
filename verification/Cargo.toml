[package]
name = "schwarzchild_sim"
version = "0.1.0"
edition = "2021"
publish = false

[dependencies]
ndarray = "=0.17.2"
numpy = "*"
pyo3 = "*"
