[package]
name = "dns_resolution"
version = "0.1.0"
edition = "2021"
publish = false

[dependencies]
dnssec-prover = { version = "*", default-features = false }
