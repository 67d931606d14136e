[package]
name = "constraint_engine"
version = "0.1.0"
edition = "2021"
publish = false

[dependencies]
curve25519-dalek = "4"
sha2 = "0.10"
spartan = "*"
merlin = "3"
bincode = "1"
ark-ff = "0.5"
ark-ec = "0.5"
ark-std = "0.5"
ark-serialize = "0.5"
ark-relations = "0.5"
ark-groth16 = "0.5"
ark-bls12-381 = "0.5"
ark-crypto-primitives = "0.5"
ark-r1cs-std = "0.5"
halo2_proofs = "0.3"
pasta_curves = "0.5"
group = "0.13"
rand = "0.8"
rand_chacha = "0.3"
rand_core = "0.6"
anyhow = "1"
log = "0.4"
env_logger = "*"
