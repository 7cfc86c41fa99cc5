//! Chains of attestations, each a signature by a new identity over the hash of
//! the previous identity's public key, and the state that a folding prover
//! advances over such a chain.
pub mod fcircuit;
pub mod field;
pub mod hash;
pub mod signature;
pub mod utils;
