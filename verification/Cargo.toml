[package]
name = "zstandard"
version = "0.1.0"
edition = "2021"
publish = false

[dependencies]
zstd-safe = { version = "*", default-features = false, features = ["std", "experimental", "zstdmt", "zdict_builder"] }
zstd-sys = { version = "*", default-features = false, features = ["std", "experimental", "zstdmt", "zdict_builder"] }
num_cpus = "1"
rayon = "1"
libc = "0.2"
pyo3 = { version = "*", features = ["extension-module"] }
