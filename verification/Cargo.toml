[package]
name = "rsmorphy"
version = "0.1.0"
edition = "2021"
publish = false

[dependencies]
flate2 = "1"
num = "0.4"
