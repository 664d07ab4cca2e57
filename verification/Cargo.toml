[package]
name = "hunspell_rs"
version = "0.4.0"
edition = "2021"
publish = false

[dependencies]
hunspell-sys = "*"
log = "0.4"
