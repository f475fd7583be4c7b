//! The digests that the proof engine may ask for: eight named hash
//! functions, each a pure function from bytes to a digest of fixed length.
//!
//! The hash functions themselves come from the crates that implement them.
//! Each digest is given a name here; what is stated of a function is that
//! it returns the named digest of its input, in an array of the algorithm's
//! length.

use vstd::prelude::*;

verus! {

/// The SHA-256 digest of `message`: what `sha2::Sha256`'s `digest` returns.
pub uninterp spec fn sha2_256_digest(message: Seq<u8>) -> Seq<u8>;

/// The SHA-512 digest of `message`: what `sha2::Sha512`'s `digest` returns.
pub uninterp spec fn sha2_512_digest(message: Seq<u8>) -> Seq<u8>;

/// The SHA-512/256 digest of `message`: what `sha2::Sha512_256`'s `digest` returns.
pub uninterp spec fn sha2_512_truncated_digest(message: Seq<u8>) -> Seq<u8>;

/// The Keccak-256 digest of `message`: what `sha3::Keccak256`'s `digest` returns.
pub uninterp spec fn keccak_256_digest(message: Seq<u8>) -> Seq<u8>;

/// The RIPEMD-160 digest of `message`: what `ripemd::Ripemd160`'s `digest` returns.
pub uninterp spec fn ripemd160_digest(message: Seq<u8>) -> Seq<u8>;

/// The BLAKE2b-512 digest of `message`: what `blake2::Blake2b512`'s `digest` returns.
pub uninterp spec fn blake2b_512_digest(message: Seq<u8>) -> Seq<u8>;

/// The BLAKE2s-256 digest of `message`: what `blake2::Blake2s256`'s `digest` returns.
pub uninterp spec fn blake2s_256_digest(message: Seq<u8>) -> Seq<u8>;

/// The BLAKE3 digest of `message`: what `blake3::hash` returns.
pub uninterp spec fn blake3_digest(message: Seq<u8>) -> Seq<u8>;

/// `sha2::Sha256`'s `digest`: the SHA-256 digest of `message`, 32 bytes long.
#[verifier::external_body]
fn sha2_256_of(message: &[u8]) -> (digest: [u8; 32])
    ensures
        digest@ == sha2_256_digest(message@),
{
    <sha2::Sha256 as sha2::Digest>::digest(message).into()
}

/// `sha2::Sha512`'s `digest`: the SHA-512 digest of `message`, 64 bytes long.
#[verifier::external_body]
fn sha2_512_of(message: &[u8]) -> (digest: [u8; 64])
    ensures
        digest@ == sha2_512_digest(message@),
{
    <sha2::Sha512 as sha2::Digest>::digest(message).into()
}

/// `sha2::Sha512_256`'s `digest`: the SHA-512/256 digest of `message`, 32 bytes long.
#[verifier::external_body]
fn sha2_512_truncated_of(message: &[u8]) -> (digest: [u8; 32])
    ensures
        digest@ == sha2_512_truncated_digest(message@),
{
    <sha2::Sha512_256 as sha2::Digest>::digest(message).into()
}

/// `sha3::Keccak256`'s `digest`: the Keccak-256 digest of `message`, 32 bytes long.
#[verifier::external_body]
fn keccak_256_of(message: &[u8]) -> (digest: [u8; 32])
    ensures
        digest@ == keccak_256_digest(message@),
{
    <sha3::Keccak256 as sha3::Digest>::digest(message).into()
}

/// `ripemd::Ripemd160`'s `digest`: the RIPEMD-160 digest of `message`, 20 bytes long.
#[verifier::external_body]
fn ripemd160_of(message: &[u8]) -> (digest: [u8; 20])
    ensures
        digest@ == ripemd160_digest(message@),
{
    <ripemd::Ripemd160 as ripemd::Digest>::digest(message).into()
}

/// `blake2::Blake2b512`'s `digest`: the BLAKE2b-512 digest of `message`, 64 bytes long.
#[verifier::external_body]
fn blake2b_512_of(message: &[u8]) -> (digest: [u8; 64])
    ensures
        digest@ == blake2b_512_digest(message@),
{
    <blake2::Blake2b512 as blake2::Digest>::digest(message).into()
}

/// `blake2::Blake2s256`'s `digest`: the BLAKE2s-256 digest of `message`, 32 bytes long.
#[verifier::external_body]
fn blake2s_256_of(message: &[u8]) -> (digest: [u8; 32])
    ensures
        digest@ == blake2s_256_digest(message@),
{
    <blake2::Blake2s256 as blake2::Digest>::digest(message).into()
}

/// `blake3::hash`: the BLAKE3 digest of `message`, 32 bytes long.
#[verifier::external_body]
fn blake3_of(message: &[u8]) -> (digest: [u8; 32])
    ensures
        digest@ == blake3_digest(message@),
{
    blake3::hash(message).into()
}

/// Provides the proof engine with its digests.
pub struct HostFunctionsManager;

impl ics23::HostFunctionsProvider for HostFunctionsManager {
    /// The SHA-256 digest of `message`.
    fn sha2_256(message: &[u8]) -> (digest: [u8; 32])
        ensures
            digest@ == sha2_256_digest(message@),
    {
        sha2_256_of(message)
    }

    /// The SHA-512 digest of `message`.
    fn sha2_512(message: &[u8]) -> (digest: [u8; 64])
        ensures
            digest@ == sha2_512_digest(message@),
    {
        sha2_512_of(message)
    }

    /// The SHA-512/256 digest of `message`.
    fn sha2_512_truncated(message: &[u8]) -> (digest: [u8; 32])
        ensures
            digest@ == sha2_512_truncated_digest(message@),
    {
        sha2_512_truncated_of(message)
    }

    /// The Keccak-256 digest of `message`.
    fn keccak_256(message: &[u8]) -> (digest: [u8; 32])
        ensures
            digest@ == keccak_256_digest(message@),
    {
        keccak_256_of(message)
    }

    /// The RIPEMD-160 digest of `message`.
    fn ripemd160(message: &[u8]) -> (digest: [u8; 20])
        ensures
            digest@ == ripemd160_digest(message@),
    {
        ripemd160_of(message)
    }

    /// The BLAKE2b-512 digest of `message`.
    fn blake2b_512(message: &[u8]) -> (digest: [u8; 64])
        ensures
            digest@ == blake2b_512_digest(message@),
    {
        blake2b_512_of(message)
    }

    /// The BLAKE2s-256 digest of `message`.
    fn blake2s_256(message: &[u8]) -> (digest: [u8; 32])
        ensures
            digest@ == blake2s_256_digest(message@),
    {
        blake2s_256_of(message)
    }

    /// The BLAKE3 digest of `message`.
    fn blake3(message: &[u8]) -> (digest: [u8; 32])
        ensures
            digest@ == blake3_digest(message@),
    {
        blake3_of(message)
    }
}

} // verus!
