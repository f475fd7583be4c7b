//! Merkle commitment proofs: value objects and chained verification of
//! membership and non-membership claims against a commitment root.

pub mod chain;
pub mod commitment;
pub mod digest;
pub mod engine;
pub mod error;
pub mod fragment;
pub mod laws;
pub mod merkle;
pub mod specs;
