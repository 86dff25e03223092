[package]
name = "pyvrl"
version = "0.1.0"
edition = "2021"
publish = false

[dependencies]
vrl = { version = "0.9", default-features = false, features = ["compiler", "value", "diagnostic", "stdlib"] }
pyo3 = { version = "0.20" }
chrono = { version = "0.4", default-features = false }
bytes = { version = "1" }
