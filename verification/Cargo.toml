[package]
name = "leotower"
version = "0.1.0"
edition = "2021"
publish = false

[dependencies]
leo3 = { version = "=0.3.1", features = ["meta"] }
pyo3 = { version = "=0.30.1", features = ["extension-module", "abi3-py39"] }
