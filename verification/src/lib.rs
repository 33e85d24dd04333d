//! A minimal Ethereum wallet library.
//!
//! The library covers the deterministic derivation pipeline from a
//! secp256k1 private key to a 20-byte account address, the parsing and
//! rendering of hexadecimal address text, and the conversion of a
//! balance in wei to its decimal ether representation. Key generation
//! and hashing call into the `k256` and `sha3` crates; everything
//! around those calls carries a verified contract.

pub mod address;
pub mod errors;
pub mod keys;
pub mod text;
pub mod units;
