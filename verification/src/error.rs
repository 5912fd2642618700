//! The failures that ledger operations report.

use vstd::prelude::*;

verus! {

/// Why a ledger operation did not take effect.
#[derive(Debug, Clone, Copy, PartialEq, Eq, Structural)]
pub enum LedgerError {
    /// The transaction moves no value.
    InvalidAmount,
    /// The sender's balance does not cover the amount.
    InsufficientFunds,
    /// The sender has no balance record.
    UnknownSender,
    /// Crediting the amount would exceed the largest representable balance.
    BalanceOverflow,
    /// The chain holds no genesis block.
    NoGenesisBlock,
    /// The last block already carries the largest representable index.
    IndexOverflow,
    /// No transaction is waiting to be put into a block.
    NoPendingWork,
    /// No validator holds the drawn ticket: there is no stake to draw from.
    NoEligibleValidator,
    /// Every nonce was tried without meeting the difficulty.
    MiningExhausted,
    /// The transaction carries no signature.
    MissingSignature,
    /// The signature is not the hexadecimal text of 64 bytes.
    MalformedSignature,
    /// The signature does not verify under the given key.
    InvalidSignature,
    /// The named validator holds no stake.
    ValidatorNotFound,
    /// The stake is smaller than the amount to take from it.
    InsufficientStake,
    /// A difficulty of zero was asked for.
    ZeroDifficulty,
    /// A target interval of zero was asked for.
    ZeroTargetTime,
    /// The text is not a decimal number in range.
    InvalidNumber,
}

/// What is wrong with a block found by a chain audit.
#[derive(Debug, Clone, Copy, PartialEq, Eq, Structural)]
pub enum FaultKind {
    /// The stored hash is not the hash of the block's content.
    BadHash,
    /// The stored previous hash is not the hash of the block before.
    BadLinkage,
}

/// The first block at which a chain audit failed.
#[derive(Debug, Clone, Copy, PartialEq, Eq, Structural)]
pub struct ChainFault {
    /// Position of the offending block in the chain.
    pub index: usize,
    pub kind: FaultKind,
}

} // verus!
