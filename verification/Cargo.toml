[package]
name = "bon"
version = "0.1.0"
edition = "2021"
publish = false

[dependencies]
bytes = "1"
num-bigint = "0.4"

[dev-dependencies]
rand = "0.8"
