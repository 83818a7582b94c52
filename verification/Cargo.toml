[package]
name = "nois"
version = "0.1.0"
edition = "2021"
publish = false

[dependencies]
enquote = "*"
rustc_apfloat = "*"
regex = "*"
