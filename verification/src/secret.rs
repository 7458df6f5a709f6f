//! The secret / hash-lock verifier: a commitment is the keccak-256 digest
//! of a secret, and a revealed secret unlocks an escrow exactly when its
//! digest matches the stored commitment byte for byte.

use vstd::prelude::*;
use crate::types::bytes_eq;

verus! {

/// The keccak-256 digest of a byte string. The algorithm itself is not
/// restated here; the name stands for its result, which depends on the
/// input bytes alone.
pub uninterp spec fn keccak256_of(data: Seq<u8>) -> Seq<u8>;

/// Relies on soroban_sdk's `Crypto::keccak256`: the keccak-256 digest of
/// the input bytes, always 32 bytes long, a deterministic function of the
/// input alone. The environment's metered budget is lifted before the
/// call, so hashing cannot abort on long inputs.
#[verifier::external_body]
fn keccak256(data: &Vec<u8>) -> (r: Vec<u8>)
    ensures
        r@ == keccak256_of(data@),
        r@.len() == 32,
{
    let env = soroban_sdk::Env::default();
    env.cost_estimate().budget().reset_unlimited();
    let bytes = soroban_sdk::Bytes::from_slice(&env, data.as_slice());
    let digest: [u8; 32] = env.crypto().keccak256(&bytes).to_array();
    digest.to_vec()
}

/// Commit to a secret: the stored hash lock is the secret's keccak-256
/// digest. The secret itself is never stored anywhere in the protocol.
pub fn commit(secret: &Vec<u8>) -> (r: Vec<u8>)
    ensures
        r@ == keccak256_of(secret@),
        r@.len() == 32,
{
    keccak256(secret)
}

/// Check a revealed secret against a stored commitment: true exactly when
/// the secret's digest equals the hash lock, byte for byte. No partial
/// matches, no folding, no trimming.
pub fn verify(hash_lock: &Vec<u8>, secret: &Vec<u8>) -> (r: bool)
    ensures
        r == (hash_lock@ == keccak256_of(secret@)),
{
    let digest = keccak256(secret);
    bytes_eq(hash_lock, &digest)
}

} // verus!
