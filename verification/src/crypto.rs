//! The two cryptographic checks of the registry: ed25519 signature
//! verification and SHA-256.

use vstd::prelude::*;

use soroban_sdk::Env;

verus! {

/// The soroban host environment (opaque here).
#[verifier::external_type_specification]
#[verifier::external_body]
pub struct ExEnv(soroban_sdk::Env);

/// Whether `signature` is a valid ed25519 signature of `message` under
/// `public_key`, by the strict rules that the soroban host applies.
pub uninterp spec fn ed25519_verifies(public_key: Seq<u8>, message: Seq<u8>, signature: Seq<u8>) -> bool;

/// The SHA-256 digest of `data`.
pub uninterp spec fn sha256_digest(data: Seq<u8>) -> Seq<u8>;

/// Checks an ed25519 signature as the soroban host's `verify_sig_ed25519`
/// does: `ed25519_dalek::VerifyingKey::from_bytes` on the key, then
/// `verify_strict`. A key that is not a valid point is a failed check.
/// (`soroban_sdk::crypto::Crypto::ed25519_verify` aborts the invocation on a
/// bad signature instead of answering, so the check is made here directly.)
/// The contract claims only that the answer is a function of the three
/// byte strings; which strings verify is left unsaid.
#[verifier::external_body]
pub(crate) fn ed25519_verify(public_key: &[u8; 32], message: &Vec<u8>, signature: &[u8; 64]) -> (ok: bool)
    ensures
        ok == ed25519_verifies(public_key@, message@, signature@),
{
    match ed25519_dalek::VerifyingKey::from_bytes(public_key) {
        Ok(key) => key.verify_strict(message, &ed25519_dalek::Signature::from_bytes(signature)).is_ok(),
        Err(_) => false,
    }
}

/// `env.crypto().sha256` of the bytes (`soroban_sdk::crypto::Crypto::sha256`,
/// which the host computes with `sha2::Sha256`). The contract claims that the
/// digest is a function of the data alone; its value is left unsaid. The
/// host charges the call to the invocation's budget and aborts the
/// invocation once the budget is spent; that is left unsaid too.
#[verifier::external_body]
pub(crate) fn sha256(env: &Env, data: &Vec<u8>) -> (digest: [u8; 32])
    ensures
        digest@ == sha256_digest(data@),
{
    env.crypto().sha256(&soroban_sdk::Bytes::from_slice(env, data)).to_array()
}

} // verus!
