[package]
name = "from_base"
version = "0.1.0"
edition = "2021"
publish = false

[dependencies]
num-bigint = "0.4"
num-traits = "0.2"
nu-plugin = "0.80"
nu-protocol = "0.80"
