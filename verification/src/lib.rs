//! A certificate-gated item registry.
//!
//! Manufacturers register an identity and sign certificates for items; the
//! owner named by a valid certificate claims the item into an ownership
//! ledger, and items then move between addresses through one-time claim
//! codes. Every operation is stated over a mathematical view of the state
//! and verified against it.

pub mod primitives;
pub mod types;
pub mod hashing;
pub mod assoc;
pub mod authenticity;
pub mod ownership;
pub mod laws;
