//! Reasons for which a commitment proof is rejected.

use vstd::prelude::*;

verus! {

/// Why a proof was rejected. Every variant is terminal: a rejected proof is
/// never retried.
#[derive(Clone, Copy, Debug, PartialEq, Eq, Structural)]
pub enum CommitmentError {
    /// The proof holds no level at all.
    EmptyMerkleProof,
    /// The root to verify against holds no bytes.
    EmptyMerkleRoot,
    /// The number of proof specs differs from the number of proof levels.
    NumberOfSpecsMismatch,
    /// The number of key segments differs from the number of proof levels.
    NumberOfKeysMismatch,
    /// Membership was claimed for an empty value.
    EmptyVerifiedValue,
    /// The proof has the wrong shape for the claim.
    InvalidMerkleProof,
    /// The proof is well shaped but does not establish the claim.
    VerificationFailure,
}

} // verus!
