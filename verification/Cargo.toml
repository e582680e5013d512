[package]
name = "pairing_witness"
version = "0.1.0"
edition = "2021"
publish = false

[dependencies]
ark-bn254 = "=0.4.0"
ark-ec = "=0.4.2"
ark-ff = "=0.4.2"
ark-std = "=0.4.0"

[dev-dependencies]
num-bigint = "0.4"
