[package]
name = "body_decoder"
version = "0.1.0"
edition = "2021"
publish = false

[dependencies]
flate2 = "1"
futures = "0.3"
bytes = "1"
