[package]
name = "downward_mailbox"
version = "0.1.0"
edition = "2021"
publish = false

[dependencies]
sp-core = "*"
sp-runtime = "*"
parity-scale-codec = "*"
ark-groth16 = "*"
ark-bls12-381 = "*"
ark-serialize = "*"
