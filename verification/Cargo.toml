[package]
name = "eudcc"
version = "0.1.0"
edition = "2021"
publish = false

[dependencies]
base45 = "=3.2.0"
ciborium = "=0.2.2"
flate2 = "=1.1.10"
