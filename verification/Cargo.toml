[package]
name = "rust_commitment_scheme"
version = "0.1.0"
edition = "2021"
publish = false

[dependencies]
rand = "=0.8.8"
sha2 = "=0.10.9"
sudoku = "=0.7.0"
