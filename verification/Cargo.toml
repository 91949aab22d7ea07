[package]
name = "wheel_parsing"
version = "0.1.0"
edition = "2021"
publish = false

[dependencies]
pep440_rs = "0.3"
csv = "1"
zip = "0.6"
thiserror = "1"
