[package]
name = "immunipy"
version = "0.1.0"
edition = "2021"
publish = false

[dependencies]
chrono = "0.4"
semver = "1"
serde_json = "1"
toml = "0.8"
ignore = "*"
indicatif = "*"
rayon = "*"
tempfile = "*"
ureq = "2"
pyo3 = "*"
