//! Zero-knowledge commitment-and-proof subsystem anchoring a physical
//! identity to a cryptographic commitment.
//!
//! A private witness is packed from a hex-encoded hash and a numeric
//! identifier; a public commitment is derived from the witness by a fixed
//! digest-and-packing rule; a zk-SNARK then proves possession of a witness
//! matching that commitment without revealing it. Proofs and verifying
//! keys are carried to an external anchoring collaborator in a canonical
//! byte layout.

pub mod codec;
pub mod commitment;
pub mod errors;
pub mod groth;
pub mod schema;
pub mod witness;
