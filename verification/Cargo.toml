[package]
name = "huak"
version = "0.1.0"
edition = "2021"
publish = false

[dependencies]
pep440_rs = "=0.7.3"
pep508_rs = "=0.9.2"
indexmap = "=2.14.2"
regex = "=1.13.1"
toml_edit = "=0.25.18"
