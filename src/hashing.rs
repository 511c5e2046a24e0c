use vstd::prelude::*;

use soroban_sdk::{Bytes, Env};

verus! {

#[verifier::external_type_specification]
#[verifier::external_body]
pub struct ExEnv(Env);

/// The Keccak-256 digest of a byte string.
pub uninterp spec fn keccak256_of(data: Seq<u8>) -> Seq<u8>;

/// Relies on soroban_sdk's `Crypto::keccak256` (reached through `Env::crypto`)
/// for the Keccak-256 digest of the bytes, copied out of the host's 32-byte
/// result, and on `Bytes::from_slice` to hand the bytes to the host, which
/// panics on a byte string longer than `u32::MAX`. Both charge the
/// environment's budget, which the caller's environment must allow for.
#[verifier::external_body]
pub(crate) fn keccak256(env: &Env, data: &Vec<u8>) -> (r: [u8; 32])
    requires
        data@.len() <= u32::MAX,
    ensures
        r@ == keccak256_of(data@),
{
    env.crypto().keccak256(&Bytes::from_slice(env, data.as_slice())).to_array()
}

} // verus!
