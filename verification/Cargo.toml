[package]
name = "apyxl"
version = "0.1.0"
edition = "2021"
publish = false

[dependencies]
anyhow = "1"
log = "0.4"

[dev-dependencies]
chumsky = "=1.0.0-alpha.4"
