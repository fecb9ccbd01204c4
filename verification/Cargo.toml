[package]
name = "tcp_backend"
version = "0.1.0"
edition = "2021"
publish = false

[dependencies]
async-io = "2"
futures-lite = "2"
netstack = "*"
