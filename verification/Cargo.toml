[package]
name = "pymspdb"
version = "0.1.0"
edition = "2021"
publish = false

[dependencies]
pdb = "=0.8.0"
fallible-iterator = "=0.2.0"
pyo3 = "=0.29.3"
