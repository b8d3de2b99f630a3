[package]
name = "snark_wrapper_verifier"
version = "0.1.0"
edition = "2021"
publish = false

[dependencies]
franklin-crypto = "=0.1.0"
pairing_ce = "*"
