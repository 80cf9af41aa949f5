use vstd::prelude::*;

verus! {

/// The execution environment of the ledger host; it supplies the hash
/// function used for service metadata.
#[verifier::external_type_specification]
#[verifier::external_body]
pub struct ExEnv(soroban_sdk::Env);

/// The SHA-256 digest of a byte string.
pub uninterp spec fn sha256_digest(data: Seq<u8>) -> Seq<u8>;

/// Whether `signature` is a valid strict Ed25519 signature of `message`
/// under `public_key`.
pub uninterp spec fn ed25519_signature_valid(
    public_key: Seq<u8>,
    message: Seq<u8>,
    signature: Seq<u8>,
) -> bool;

/// Hashes `data` with the host's SHA-256 (`soroban_sdk::crypto::Crypto::sha256`).
/// Claimed: the result is the SHA-256 digest of the bytes, which depends on
/// the bytes alone.
#[verifier::external_body]
pub fn sha256(env: &soroban_sdk::Env, data: &[u8]) -> (digest: [u8; 32])
    ensures
        digest@ == sha256_digest(data@),
{
    let bytes = soroban_sdk::Bytes::from_slice(env, data);
    env.crypto().sha256(&bytes).to_array()
}

/// Checks an Ed25519 signature the way the ledger host does: the public key
/// must decompress (`ed25519_dalek::VerifyingKey::from_bytes`) and the
/// signature must pass `VerifyingKey::verify_strict`. Claimed: the answer
/// depends on the key, message and signature bytes alone.
#[verifier::external_body]
pub fn ed25519_verify(public_key: &[u8; 32], message: &[u8], signature: &[u8; 64]) -> (valid: bool)
    ensures
        valid == ed25519_signature_valid(public_key@, message@, signature@),
{
    match ed25519_dalek::VerifyingKey::from_bytes(public_key) {
        Ok(key) => key.verify_strict(message, &ed25519_dalek::Signature::from_bytes(signature)).is_ok(),
        Err(_) => false,
    }
}

} // verus!
