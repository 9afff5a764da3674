[package]
name = "memory_reader"
version = "0.1.0"
edition = "2021"
publish = false

[dependencies]
anyhow = "*"
neon = "*"
read-process-memory = "*"
