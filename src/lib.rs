//! Threshold EdDSA over Ed25519: distributed key generation with Feldman
//! verifiable secret sharing, ephemeral nonce generation, partial signatures,
//! their aggregation, and verification.
//!
//! Points and scalars travel as their 32-byte encodings; every check of the
//! protocol is stated over those encodings and proved, while the curve
//! arithmetic itself is delegated to the `curv` library.

pub mod curve;
pub mod types;
pub mod vss;
pub mod keygen;
pub mod party;
pub mod signing;
pub mod codec;
pub mod laws;
