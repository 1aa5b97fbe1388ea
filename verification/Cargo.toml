[package]
name = "unity_dlp"
version = "0.1.0"
edition = "2021"
publish = false

[dependencies]
log = "0.4"
once_cell = "1"
pyo3 = "0.22"
rquickjs = "0.9"
