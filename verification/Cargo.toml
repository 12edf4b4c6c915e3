[package]
name = "circuit_writer"
version = "0.1.0"
edition = "2021"
publish = false

[dependencies]
ark-ff = "*"
ark-pallas = "*"
