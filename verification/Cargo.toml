[package]
name = "hakkit"
version = "0.1.0"
edition = "2021"

[dependencies]
lz4_flex = "*"
zstd = "*"
