[package]
name = "duck-control"
version = "0.1.0"
edition = "2021"
publish = false

[dependencies]
rustypot = "=1.13.1"
serialport = { version = "=4.10.1", default-features = false }
tracing = "=0.1.44"
