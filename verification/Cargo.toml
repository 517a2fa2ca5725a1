[package]
name = "obliv_rust"
version = "0.1.0"
edition = "2021"
publish = false

[dependencies]
rand = "=0.10.3"
num = "=0.4.3"
prost = "=0.14.4"
