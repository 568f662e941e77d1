//! Ed25519 keys and signatures, as the `ed25519-dalek` crate makes them.

use ed25519_dalek::Signer;
use rand::RngCore;
use vstd::prelude::*;

verus! {

/// The Ed25519 signature of `message` under the 32-byte secret key `secret`.
pub uninterp spec fn ed25519_signature(secret: Seq<u8>, message: Seq<u8>) -> Seq<u8>;

/// The Ed25519 public key that belongs to the 32-byte secret key `secret`.
pub uninterp spec fn ed25519_public_key(secret: Seq<u8>) -> Seq<u8>;

/// Calls `SigningKey::from_bytes` and `Signer::sign` of `ed25519-dalek`.
/// Signing is deterministic: the 64 bytes depend on the key and the message
/// alone. Nothing is claimed here of how a verifier judges them.
#[verifier::external_body]
pub(crate) fn sign(secret: &[u8; 32], message: &[u8]) -> (signature: [u8; 64])
    ensures
        signature@ == ed25519_signature(secret@, message@),
{
    ed25519_dalek::SigningKey::from_bytes(secret).sign(message).to_bytes()
}

/// Calls `SigningKey::from_bytes` and `SigningKey::verifying_key` of
/// `ed25519-dalek`: the public key is derived from the secret key alone.
#[verifier::external_body]
pub(crate) fn public_key(secret: &[u8; 32]) -> (public: [u8; 32])
    ensures
        public@ == ed25519_public_key(secret@),
{
    ed25519_dalek::SigningKey::from_bytes(secret).verifying_key().to_bytes()
}

/// Calls `try_fill_bytes` on `rand`'s `OsRng` for 32 bytes of the operating
/// system's randomness. Nothing is known of the bytes; `None` when the system
/// gives none.
#[verifier::external_body]
pub(crate) fn fresh_secret() -> (secret: Option<[u8; 32]>)
{
    let mut bytes = [0u8; 32];
    match rand::rngs::OsRng.try_fill_bytes(&mut bytes) {
        Ok(()) => Some(bytes),
        Err(_) => None,
    }
}

} // verus!
