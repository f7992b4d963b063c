use vstd::prelude::*;

use ed25519_dalek::{Signature, Signer, SigningKey, Verifier, VerifyingKey};

verus! {

/// The ed25519 public key (compressed point) that belongs to a 32-byte
/// secret key, as `ed25519_dalek` derives it.
pub uninterp spec fn ed25519_public_key(secret: [u8; 32]) -> [u8; 32];

/// The ed25519 signature of `message` under the secret key `secret`, as
/// `ed25519_dalek` computes it (deterministically, RFC 8032).
pub uninterp spec fn ed25519_signature(secret: [u8; 32], message: Seq<u8>) -> [u8; 64];

/// Whether `signature` is accepted for `message` under the public key
/// `public` by `ed25519_dalek` (the key must decode to a curve point, then
/// the non-strict verification equation must hold).
pub uninterp spec fn ed25519_verifies(public: [u8; 32], message: Seq<u8>, signature: [u8; 64]) -> bool;

/// Calls `SigningKey::from_bytes` and `SigningKey::verifying_key`, and returns
/// the key's bytes (`VerifyingKey::to_bytes`). The result is a function of the
/// secret alone, named `ed25519_public_key`.
#[verifier::external_body]
pub(crate) fn public_key_of(secret: &[u8; 32]) -> (public: [u8; 32])
    ensures
        public == ed25519_public_key(*secret),
{
    SigningKey::from_bytes(secret).verifying_key().to_bytes()
}

/// Calls `SigningKey::from_bytes` and `Signer::sign`, and returns the
/// signature's bytes (`Signature::to_bytes`). The result is named
/// `ed25519_signature`; the claim added to it is the one the crate documents
/// for every key and message: the verifying key of the signing key accepts it.
#[verifier::external_body]
pub(crate) fn sign_message(secret: &[u8; 32], message: &[u8]) -> (signature: [u8; 64])
    ensures
        signature == ed25519_signature(*secret, message@),
        ed25519_verifies(ed25519_public_key(*secret), message@, signature),
{
    SigningKey::from_bytes(secret).sign(message).to_bytes()
}

/// Calls `VerifyingKey::from_bytes` and, when the bytes are a key,
/// `Verifier::verify` with `Signature::from_bytes(signature)`; a key that does
/// not decode verifies nothing. The outcome is named `ed25519_verifies`.
#[verifier::external_body]
pub(crate) fn verify_message(public: &[u8; 32], message: &[u8], signature: &[u8; 64]) -> (ok: bool)
    ensures
        ok == ed25519_verifies(*public, message@, *signature),
{
    match VerifyingKey::from_bytes(public) {
        Ok(key) => key.verify(message, &Signature::from_bytes(signature)).is_ok(),
        Err(_) => false,
    }
}

} // verus!
