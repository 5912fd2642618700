//! Key generation.

use crate::signing::{ed25519_public_key, fresh_secret_key, public_key_of};
use vstd::prelude::*;

verus! {

/// Generates a fresh Ed25519 key pair: the signing key and the verifying key
/// that belongs to it, each as its 32-byte encoding.
pub fn generate_keypair() -> (keys: ([u8; 32], [u8; 32]))
    ensures
        keys.1@ == ed25519_public_key(keys.0@),
{
    let signing_key = fresh_secret_key();
    let verifying_key = public_key_of(&signing_key);
    (signing_key, verifying_key)
}

} // verus!
