//! Execution traces, transition constraints and boundary assertions for three
//! small STARK statements (a product, a SHA-256 digest and a Merkle root) over the
//! 128-bit prime field of winterfell, with the SHA-256 word helpers they use.

pub mod field;
pub mod hashing;
pub mod trace;
pub mod air;
pub mod multiplication;
pub mod sha256;
pub mod merkle;
