[package]
name = "gfwlist"
version = "0.1.0"
edition = "2021"
publish = false

[dependencies]
aho-corasick = "1"
regex = "1"
url = "2"
pyo3 = "*"
