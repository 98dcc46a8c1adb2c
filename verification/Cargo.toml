[package]
name = "finr"
version = "0.1.0"
edition = "2021"
publish = false

[dependencies]
anyhow = "1"
fxhash = "0.2"
regex = "1"
