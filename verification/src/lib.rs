//! Groth16 proving and verification for one fixed circuit over BN254:
//! scalar text parsing, the key-store loader, the key cache, the proof and
//! verification services, and the ownership rules of the buffers that are
//! handed to a foreign caller.

pub mod boundary;
pub mod cache;
pub mod encoding;
pub mod errors;
pub mod field;
pub mod keystore;
pub mod matrices;
pub mod prover;
pub mod scalar;
pub mod text;
pub mod verification;
pub mod wire;
