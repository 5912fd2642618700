//! Ed25519 keys and signatures as plain bytes.
//!
//! Keys are held as their 32-byte encodings and signatures as 64 bytes, so that
//! the ledger's own types stay transparent to the verifier. The arithmetic is
//! done by `ed25519-dalek`; the trusted functions below name its results.

use ed25519_dalek::{Signature, Signer, SigningKey, Verifier, VerifyingKey};
use rand::rngs::OsRng;
use vstd::prelude::*;

verus! {

/// The public key that belongs to a 32-byte secret key.
pub uninterp spec fn ed25519_public_key(secret: Seq<u8>) -> Seq<u8>;

/// The signature of `message` (its UTF-8 bytes) under a secret key.
pub uninterp spec fn ed25519_signature(secret: Seq<u8>, message: Seq<char>) -> Seq<u8>;

/// Whether `signature` verifies for `message` (its UTF-8 bytes) under a public key.
pub uninterp spec fn ed25519_accepts(public: Seq<u8>, message: Seq<char>, signature: Seq<u8>) -> bool;

/// Trusted: `SigningKey::generate` with the operating system's generator. The
/// secret is random, so nothing is promised about it.
#[verifier::external_body]
pub(crate) fn fresh_secret_key() -> (secret: [u8; 32]) {
    SigningKey::generate(&mut OsRng).to_bytes()
}

/// Trusted: `SigningKey::verifying_key`, a function of the secret bytes alone.
#[verifier::external_body]
pub(crate) fn public_key_of(secret: &[u8; 32]) -> (public: [u8; 32])
    ensures
        public@ == ed25519_public_key(secret@),
{
    SigningKey::from_bytes(secret).verifying_key().to_bytes()
}

/// Trusted: `Signer::sign` of `SigningKey`. Ed25519 signing uses no randomness,
/// so the signature is a function of the key and the message; `to_bytes`
/// hands it out as an array of 64 bytes. As the crate documents, the
/// signature is valid for the message under the public half of the key.
#[verifier::external_body]
pub(crate) fn sign_text(secret: &[u8; 32], message: &str) -> (signature: Vec<u8>)
    ensures
        signature@ == ed25519_signature(secret@, message@),
        signature@.len() == 64,
        ed25519_accepts(ed25519_public_key(secret@), message@, signature@),
{
    SigningKey::from_bytes(secret).sign(message.as_bytes()).to_bytes().to_vec()
}

/// Trusted: `Verifier::verify` of `VerifyingKey`. Bytes that do not decode to a
/// key count as a rejection.
#[verifier::external_body]
pub(crate) fn signature_accepted(public: &[u8; 32], message: &str, signature: &[u8]) -> (ok: bool)
    requires
        signature@.len() == 64,
    ensures
        ok == ed25519_accepts(public@, message@, signature@),
{
    match (VerifyingKey::from_bytes(public), Signature::from_slice(signature)) {
        (Ok(key), Ok(sig)) => key.verify(message.as_bytes(), &sig).is_ok(),
        _ => false,
    }
}

} // verus!
