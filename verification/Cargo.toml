[package]
name = "write_once_store"
version = "0.1.0"
edition = "2021"
publish = false

[dependencies]
pyo3 = "0.20"
numpy = "0.20"
