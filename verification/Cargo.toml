[package]
name = "batch_prover"
version = "0.1.0"
edition = "2021"
publish = false

[dependencies]
bellpepper-core = "*"
ff = "0.13"
pairing = "0.23"
rayon = "1"
supraseal-c2 = "*"
