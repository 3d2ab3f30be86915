//! Trusted bridge to the host's hashing and randomness capabilities.
//!
//! Everything else in this crate is verified; these two wrappers are the
//! only places where an outside computation enters the logic.

use vstd::prelude::*;

verus! {

/// The SHA-256 digest of a byte sequence.  A function of the bytes alone;
/// nothing is assumed about its value beyond its length.
pub uninterp spec fn sha256_of(data: Seq<u8>) -> Seq<u8>;

/// Relies on soroban_sdk's `Crypto::sha256`: returns the 32-byte SHA-256
/// digest of the input, a function of the input bytes alone.  The digest
/// runs on an unlimited host budget, so no input length the caller can
/// hold in memory makes the host abort the hash.
#[verifier::external_body]
pub(crate) fn sha256_bytes(data: &Vec<u8>) -> (r: Vec<u8>)
    ensures
        r@ == sha256_of(data@),
        r@.len() == 32,
{
    let env = soroban_sdk::Env::default();
    env.cost_estimate().budget().reset_unlimited();
    let bytes = soroban_sdk::Bytes::from_slice(&env, data.as_slice());
    let digest = env.crypto().sha256(&bytes);
    digest.to_array().to_vec()
}

/// Relies on `rand::random_range`: draws an integer below `bound`.  The
/// draw depends on the process's randomness source, so nothing is assumed
/// about which value comes back.
#[verifier::external_body]
pub(crate) fn random_below(bound: u64) -> (r: u64)
    requires
        bound > 0,
    ensures
        r < bound,
{
    rand::random_range(0..bound)
}

} // verus!
