//! A confidential-payment ledger core: twisted-ElGamal balances on the Ristretto
//! group, a Bulletproof range-proof verifier with its Fiat–Shamir transcript,
//! the Σ-protocol checks that bind withdrawals and transfers to account state,
//! and the instruction handlers that apply them, each with a proved contract.

pub mod scalar;
pub mod point;
pub mod utils;
pub mod error;
pub mod curve_ops;
pub mod transcript;
pub mod generators;
pub mod bulletproof;
pub mod state;
pub mod sigma;
pub mod processor;
pub mod constraint_system;
pub mod instruction;
