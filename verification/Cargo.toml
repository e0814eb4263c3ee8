[package]
name = "karva"
version = "0.1.0"
edition = "2021"
publish = false

[dependencies]
anyhow = "1"
argfile = "*"
camino = "1"
clap = { version = "4", features = ["derive"] }
colored = "*"
crossbeam-channel = "0.5"
fs-err = "*"
pyo3 = { version = "*", features = ["abi3-py310"] }
serde = { version = "1", features = ["derive"] }
serde_json = "1"
tempfile = "3"
tracing = "0.1"
wild = "2"
