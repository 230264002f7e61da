[package]
name = "circuit_prover"
version = "0.1.0"
edition = "2021"
publish = false

[dependencies]
ark-bn254 = "=0.5.0"
ark-circom = { version = "=0.5.0", default-features = false }
ark-ec = "=0.5.0"
ark-ff = "=0.5.0"
ark-groth16 = "=0.5.0"
ark-relations = "=0.5.1"
ark-serialize = "=0.5.0"
ark-snark = "=0.5.1"
ark-std = { version = "=0.5.0", features = ["getrandom"] }
clap = { version = "=4.6.7", default-features = false, features = ["std", "help", "usage"] }
hex = "=0.4.3"
log = "=0.4.34"
memmap2 = "=0.6.2"
num-bigint = "=0.4.8"
num-traits = "=0.2.19"
once_cell = "=1.21.4"
serde_json = "=1.0.154"
thiserror = "=1.0.69"
wasmer = { version = "=4.4.0", default-features = false, features = ["sys"] }
# Named for its `sys` feature alone: ark-circom, taken without its default
# features, leaves the choice of the WebAssembly engine to the crate that
# uses it. Nothing here calls wasmer-wasix.
wasmer-wasix = { version = "=0.28.0", default-features = false, features = ["sys"] }
