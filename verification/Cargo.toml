[package]
name = "tfdeploy"
version = "0.1.0"
edition = "2021"
publish = false

[dependencies]
bit-set = "*"
ndarray = "*"
num-traits = "*"
protobuf = "2"
rand = "*"
