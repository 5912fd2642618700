//! A key pair and the address derived from it.

use super::transaction::{raw_data, verification, Transaction, TransactionView};
use crate::error::LedgerError;
use crate::hashing::{hex_encode, hex_text};
use crate::sign_helper::generate_keypair;
use crate::signing::{ed25519_accepts, ed25519_public_key, ed25519_signature};
use vstd::prelude::*;

verus! {

/// An Ed25519 key pair. The address is the verifying key in hexadecimal.
#[derive(Debug)]
pub struct Wallet {
    pub address: String,
    pub signing_key: [u8; 32],
    pub verifying_key: [u8; 32],
}

impl Wallet {
    /// Whether the keys belong together and the address is that of the
    /// verifying key.
    pub open spec fn wf(&self) -> bool {
        &&& self.verifying_key@ == ed25519_public_key(self.signing_key@)
        &&& self.address@ == hex_text(self.verifying_key@)
    }

    /// A wallet with a fresh key pair.
    pub fn new() -> (wallet: Self)
        ensures
            wallet.wf(),
    {
        let (signing_key, verifying_key) = generate_keypair();
        Self { address: hex_encode(verifying_key.as_slice()), signing_key, verifying_key }
    }

    /// Signs `transaction` with the wallet's signing key. The signature of a
    /// wallet whose keys belong together verifies under its verifying key.
    pub fn sign_transaction(&self, transaction: &mut Transaction) -> (outcome: Result<
        (),
        LedgerError,
    >)
        ensures
            outcome is Ok,
            final(transaction)@ == (TransactionView {
                signature: Some(
                    hex_text(ed25519_signature(self.signing_key@, raw_data(old(transaction)@))),
                ),
                ..old(transaction)@
            }),
            forall|key: Seq<u8>| #[trigger]
                verification(final(transaction)@, key) == if ed25519_accepts(
                    key,
                    raw_data(old(transaction)@),
                    ed25519_signature(self.signing_key@, raw_data(old(transaction)@)),
                ) {
                    Ok::<(), LedgerError>(())
                } else {
                    Err::<(), LedgerError>(LedgerError::InvalidSignature)
                },
            self.wf() ==> verification(final(transaction)@, self.verifying_key@) is Ok,
    {
        transaction.sign(&self.signing_key)
    }
}

} // verus!
