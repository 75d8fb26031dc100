[package]
name = "mercat_core"
version = "0.1.0"
edition = "2021"
publish = false

[dependencies]
curve25519-dalek = "4"
bulletproofs = "*"
merlin = "3"
schnorrkel = "0.11"
rand = "0.8"
rand_core = "0.6"
