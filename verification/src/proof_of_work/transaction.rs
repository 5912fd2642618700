//! Signed transfers and block rewards.

use crate::error::LedgerError;
use crate::hashing::{
    hex_bytes, hex_decode, hex_encode, hex_text, is_hex_text, lemma_hex_round_trip,
};
use crate::signing::{
    ed25519_accepts, ed25519_public_key, ed25519_signature, sign_text, signature_accepted,
};
use crate::text::{decimal_string, decimal_text};
use vstd::prelude::*;
use vstd::string::StringExecFns;

verus! {

/// A transfer of `amount` from `sender` to `receiver`, or a reward issued by
/// the ledger. Amounts count indivisible units.
#[derive(Debug)]
pub struct Transaction {
    pub sender: String,
    pub receiver: String,
    pub amount: u64,
    /// Set on the reward that a block pays its miner.
    pub is_reward: bool,
    /// The sender's signature over the raw transaction data, in hexadecimal.
    pub signature: Option<String>,
}

/// The mathematical content of a [`Transaction`].
pub struct TransactionView {
    pub sender: Seq<char>,
    pub receiver: Seq<char>,
    pub amount: u64,
    pub is_reward: bool,
    pub signature: Option<Seq<char>>,
}

impl View for Transaction {
    type V = TransactionView;

    open spec fn view(&self) -> TransactionView {
        TransactionView {
            sender: self.sender@,
            receiver: self.receiver@,
            amount: self.amount,
            is_reward: self.is_reward,
            signature: match self.signature {
                Some(s) => Some(s@),
                None => None,
            },
        }
    }
}

impl Clone for Transaction {
    fn clone(&self) -> (copy: Self)
        ensures
            copy@ == self@,
    {
        Transaction {
            sender: self.sender.clone(),
            receiver: self.receiver.clone(),
            amount: self.amount,
            is_reward: self.is_reward,
            signature: match &self.signature {
                Some(s) => Some(s.clone()),
                None => None,
            },
        }
    }
}

/// The contents of a vector of transactions.
pub open spec fn transaction_views(transactions: Seq<Transaction>) -> Seq<TransactionView> {
    transactions.map_values(|t: Transaction| t@)
}

/// The text that is signed and hashed for a transaction: sender, `->`,
/// receiver, `:` and the amount in decimal.
///
/// Neither the signature nor the reward mark is part of it, so neither is
/// covered by a signature or by the seal of a block. Addresses are taken as
/// they are: one that holds `->` or `:` can make two transactions read alike.
pub open spec fn raw_data(tx: TransactionView) -> Seq<char> {
    tx.sender + "->"@ + tx.receiver + ":"@ + decimal_text(tx.amount as nat)
}

/// The identity that rewards are sent from.
pub open spec fn reward_sender() -> Seq<char> {
    "Network"@
}

/// The outcome of checking the signature of `tx` against a verifying key.
///
/// The signature must be there, must be the hexadecimal text of exactly 64
/// bytes, and those bytes must verify for the raw transaction data.
pub open spec fn verification(tx: TransactionView, verifying_key: Seq<u8>) -> Result<
    (),
    LedgerError,
> {
    match tx.signature {
        None => Err(LedgerError::MissingSignature),
        Some(text) => if !is_hex_text(text) || hex_bytes(text).len() != 64 {
            Err(LedgerError::MalformedSignature)
        } else if !ed25519_accepts(verifying_key, raw_data(tx), hex_bytes(text)) {
            Err(LedgerError::InvalidSignature)
        } else {
            Ok(())
        },
    }
}

impl Transaction {
    /// An unsigned transfer.
    pub fn new(sender: &str, receiver: &str, amount: u64) -> (tx: Self)
        ensures
            tx@ == (TransactionView {
                sender: sender@,
                receiver: receiver@,
                amount,
                is_reward: false,
                signature: None,
            }),
    {
        Transaction {
            sender: String::from_str(sender),
            receiver: String::from_str(receiver),
            amount,
            is_reward: false,
            signature: None,
        }
    }

    /// The reward of `amount` that the ledger pays to `receiver`.
    pub fn reward(receiver: &str, amount: u64) -> (tx: Self)
        ensures
            tx@ == (TransactionView {
                sender: reward_sender(),
                receiver: receiver@,
                amount,
                is_reward: true,
                signature: None,
            }),
    {
        Transaction {
            sender: String::from_str("Network"),
            receiver: String::from_str(receiver),
            amount,
            is_reward: true,
            signature: None,
        }
    }

    /// Signs the raw transaction data and attaches the signature in
    /// hexadecimal, replacing any earlier one. Signing cannot fail.
    ///
    /// The attached signature is well-formed: checking it against any key
    /// comes down to whether that key accepts it, and the public half of the
    /// signing key does.
    pub fn sign(&mut self, signing_key: &[u8; 32]) -> (outcome: Result<(), LedgerError>)
        ensures
            outcome is Ok,
            final(self)@ == (TransactionView {
                signature: Some(hex_text(ed25519_signature(signing_key@, raw_data(old(self)@)))),
                ..old(self)@
            }),
            forall|key: Seq<u8>| #[trigger]
                verification(final(self)@, key) == if ed25519_accepts(
                    key,
                    raw_data(old(self)@),
                    ed25519_signature(signing_key@, raw_data(old(self)@)),
                ) {
                    Ok::<(), LedgerError>(())
                } else {
                    Err::<(), LedgerError>(LedgerError::InvalidSignature)
                },
            verification(final(self)@, ed25519_public_key(signing_key@)) is Ok,
    {
        let raw_transaction_data = self.get_raw_transaction_data();
        let signature = sign_text(signing_key, raw_transaction_data.as_str());
        proof {
            lemma_hex_round_trip(signature@);
        }
        self.signature = Some(hex_encode(signature.as_slice()));
        Ok(())
    }

    /// Checks the attached signature against `verifying_key`.
    pub fn verify(&self, verifying_key: &[u8; 32]) -> (outcome: Result<(), LedgerError>)
        ensures
            outcome == verification(self@, verifying_key@),
    {
        let signature_str = match &self.signature {
            Some(text) => text,
            None => {
                return Err(LedgerError::MissingSignature);
            },
        };
        let signature_bytes = match hex_decode(signature_str.as_str()) {
            Some(bytes) => bytes,
            None => {
                return Err(LedgerError::MalformedSignature);
            },
        };
        if signature_bytes.len() != 64 {
            return Err(LedgerError::MalformedSignature);
        }
        let raw_transaction_data = self.get_raw_transaction_data();
        if signature_accepted(
            verifying_key,
            raw_transaction_data.as_str(),
            signature_bytes.as_slice(),
        ) {
            Ok(())
        } else {
            Err(LedgerError::InvalidSignature)
        }
    }

    /// The text that is signed and hashed for this transaction.
    pub fn get_raw_transaction_data(&self) -> (text: String)
        ensures
            text@ == raw_data(self@),
    {
        let mut text = self.sender.clone();
        text.append("->");
        text.append(self.receiver.as_str());
        text.append(":");
        let amount = decimal_string(self.amount);
        text.append(amount.as_str());
        assert(text@ =~= raw_data(self@));
        text
    }
}

} // verus!
