[package]
name = "pcs_bench"
version = "0.1.0"
edition = "2021"
publish = false

[dependencies]
p3-blake3 = "=0.8.0"
p3-commit = "=0.8.0"
p3-dft = "=0.8.0"
p3-field = "=0.8.0"
p3-goldilocks = "=0.8.0"
p3-matrix = "=0.8.0"
p3-merkle-tree = "=0.8.0"
p3-symmetric = "=0.8.0"
winter-utils = "=0.13.1"
winterfell = "=0.13.1"
