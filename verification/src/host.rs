//! Hashing through the Soroban host.
use soroban_sdk::Env;
use vstd::prelude::*;

verus! {

/// The host environment of a Soroban contract invocation.
#[verifier::external_type_specification]
#[verifier::external_body]
pub struct ExEnv(Env);

/// The SHA-256 digest of a byte string.
pub uninterp spec fn sha256_of(data: Seq<u8>) -> Seq<u8>;

/// Hashes `data` with `soroban_sdk::crypto::Crypto::sha256` (the host's SHA-256).
/// Trusted: the result is the digest of the bytes handed in, as a function of
/// those bytes alone, and it is 32 bytes long (the call returns a `Hash<32>`).
/// The host charges the call to the invocation's budget; running out of budget
/// aborts the invocation, which no clause here states.
#[verifier::external_body]
pub(crate) fn sha256(env: &Env, data: &Vec<u8>) -> (r: Vec<u8>)
    ensures
        r@ == sha256_of(data@),
        r@.len() == 32,
{
    let input = soroban_sdk::Bytes::from_slice(env, data.as_slice());
    env.crypto().sha256(&input).to_array().to_vec()
}

/// The Keccak-256 digest of a byte string.
pub uninterp spec fn keccak256_of(data: Seq<u8>) -> Seq<u8>;

/// Hashes `data` with `soroban_sdk::crypto::Crypto::keccak256` (the host's
/// Keccak-256). Trusted: the result is the digest of the bytes handed in, a
/// function of those bytes alone (its 32 bytes are the array returned).
#[verifier::external_body]
pub(crate) fn keccak256(env: &Env, data: &Vec<u8>) -> (r: [u8; 32])
    ensures
        r@ == keccak256_of(data@),
{
    let input = soroban_sdk::Bytes::from_slice(env, data.as_slice());
    env.crypto().keccak256(&input).to_array()
}

} // verus!
