[package]
name = "zkproofs"
version = "0.1.0"
edition = "2021"
publish = false

[dependencies]
sha2 = "0.10"
winterfell = "0.12"
ark-std = "0.4"
ark-relations = "0.4"
ark-r1cs-std = "0.4"
ark-crypto-primitives = { version = "0.4", features = ["r1cs", "crh"] }
ark-groth16 = "0.4"
ark-bn254 = "0.4"
ark-snark = "0.4"
rand = "0.8"
