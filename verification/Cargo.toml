[package]
name = "yield_sensitive_dlmm"
version = "0.1.0"
edition = "2021"
publish = false

[dependencies]
solana-program = "*"
