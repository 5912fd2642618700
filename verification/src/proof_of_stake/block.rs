//! Blocks of the stake-weighted ledger and their sealing hash.

use super::transaction::{transaction_views, transactions_json, transactions_to_json, Transaction, TransactionView};
use crate::audit::{
    fault_at, is_first_fault, is_sound, lemma_resealing_is_reported, lemma_tampering_is_reported,
    Link, Linked,
};
use crate::clock::now_millis;
use crate::error::{ChainFault, FaultKind};
use crate::hashing::{hex_text, lemma_hex_text_injective, sha256_digest, sha256_hex};
use crate::text::{decimal_string, decimal_text};
use vstd::prelude::*;
use vstd::string::StringExecFns;

verus! {

/// An ordered batch of transactions, linked to the block before it and sealed
/// by a hash over its content.
#[derive(Debug)]
pub struct Block {
    pub index: u64,
    pub previous_hash: String,
    /// Milliseconds since the Unix epoch at which the block was made.
    pub timestamp: u64,
    pub transactions: Vec<Transaction>,
    /// Address of the validator that produced the block.
    pub validator: String,
    pub hash: String,
}

/// The mathematical content of a [`Block`].
pub struct BlockView {
    pub index: u64,
    pub previous_hash: Seq<char>,
    pub timestamp: u64,
    pub transactions: Seq<TransactionView>,
    pub validator: Seq<char>,
    pub hash: Seq<char>,
}

impl View for Block {
    type V = BlockView;

    open spec fn view(&self) -> BlockView {
        BlockView {
            index: self.index,
            previous_hash: self.previous_hash@,
            timestamp: self.timestamp,
            transactions: transaction_views(self.transactions@),
            validator: self.validator@,
            hash: self.hash@,
        }
    }
}

/// The contents of a vector of blocks.
pub open spec fn block_views(blocks: Seq<Block>) -> Seq<BlockView> {
    blocks.map_values(|b: Block| b@)
}

/// The canonical text of a block, which is what the seal covers: index,
/// timestamp, previous hash, validator and the transactions as JSON, in that
/// order and with nothing between them.
///
/// The stored hash is not part of the text. Because the parts are joined
/// without a separator, two blocks can have one text although their fields
/// differ, where the end of one part reads as the beginning of the next.
pub open spec fn block_text(b: BlockView) -> Seq<char> {
    decimal_text(b.index as nat) + decimal_text(b.timestamp as nat) + b.previous_hash + b.validator
        + transactions_json(b.transactions)
}

/// The hash that seals a block: the SHA-256 digest of its canonical text, in
/// lower-case hexadecimal. It does not depend on the stored hash.
pub open spec fn block_hash(b: BlockView) -> Seq<char> {
    hex_text(sha256_digest(block_text(b)))
}

/// The hashes that an audit reads off a block.
pub open spec fn link_of(b: BlockView) -> Link {
    Link { previous_hash: b.previous_hash, hash: b.hash, content_hash: block_hash(b) }
}

/// The hashes that an audit reads off a chain.
pub open spec fn links_of(chain: Seq<BlockView>) -> Seq<Link> {
    chain.map_values(|b: BlockView| link_of(b))
}

/// Different content gives a different hash, unless SHA-256 gives the two
/// canonical texts one digest.
pub proof fn lemma_hash_follows_digest(a: BlockView, b: BlockView)
    ensures
        block_hash(a) == block_hash(b) <==> sha256_digest(block_text(a)) == sha256_digest(
            block_text(b),
        ),
{
    if block_hash(a) == block_hash(b) {
        lemma_hex_text_injective(sha256_digest(block_text(a)), sha256_digest(block_text(b)));
    }
}

/// Tamper-evidence: where a block of a sound chain is replaced by one that
/// stores the same hash but has other content, the audit reports a bad hash
/// at that block, unless SHA-256 gives the two canonical texts one digest.
pub proof fn lemma_tampered_block_is_reported(chain: Seq<BlockView>, i: usize, tampered: BlockView)
    requires
        is_sound(links_of(chain)),
        1 <= i < chain.len(),
        tampered.hash == chain[i as int].hash,
        sha256_digest(block_text(tampered)) != sha256_digest(block_text(chain[i as int])),
    ensures
        is_first_fault(
            links_of(chain.update(i as int, tampered)),
            ChainFault { index: i, kind: FaultKind::BadHash },
        ),
{
    lemma_hash_follows_digest(tampered, chain[i as int]);
    assert(links_of(chain.update(i as int, tampered)) =~= links_of(chain).update(
        i as int,
        link_of(tampered),
    ));
    lemma_tampering_is_reported(links_of(chain), i, link_of(tampered));
}

/// Resealing does not hide tampering: where a block of a sound chain is
/// replaced by one with other content that is sealed again and names the
/// same previous hash, the audit reports a bad linkage at the block that
/// follows, unless SHA-256 gives the two canonical texts one digest.
pub proof fn lemma_resealed_block_is_reported(chain: Seq<BlockView>, i: usize, resealed: BlockView)
    requires
        is_sound(links_of(chain)),
        1 <= i,
        i + 1 < chain.len(),
        i + 1 <= usize::MAX,
        resealed.hash == block_hash(resealed),
        resealed.previous_hash == chain[i as int].previous_hash,
        sha256_digest(block_text(resealed)) != sha256_digest(block_text(chain[i as int])),
    ensures
        is_first_fault(
            links_of(chain.update(i as int, resealed)),
            ChainFault { index: (i + 1) as usize, kind: FaultKind::BadLinkage },
        ),
{
    lemma_hash_follows_digest(resealed, chain[i as int]);
    assert(fault_at(links_of(chain), i as int) is None);
    assert(links_of(chain.update(i as int, resealed)) =~= links_of(chain).update(
        i as int,
        link_of(resealed),
    ));
    lemma_resealing_is_reported(links_of(chain), i, link_of(resealed));
}

/// The content of the genesis block: position zero, no transactions, the
/// sentinel `0` in place of a previous hash, and the reserved identity
/// `System` as its producer.
pub open spec fn genesis_content() -> BlockView {
    BlockView {
        index: 0,
        previous_hash: "0"@,
        timestamp: 0,
        transactions: Seq::empty(),
        validator: "System"@,
        hash: Seq::empty(),
    }
}

/// The genesis block: its fixed content, sealed like any other block.
pub open spec fn genesis_view() -> BlockView {
    BlockView { hash: block_hash(genesis_content()), ..genesis_content() }
}

impl Clone for Block {
    fn clone(&self) -> (copy: Self)
        ensures
            copy@ == self@,
    {
        let transactions = self.transactions.clone();
        assert(transaction_views(transactions@) =~= transaction_views(self.transactions@));
        Block {
            index: self.index,
            previous_hash: self.previous_hash.clone(),
            timestamp: self.timestamp,
            transactions,
            validator: self.validator.clone(),
            hash: self.hash.clone(),
        }
    }
}

impl Linked for Block {
    open spec fn link(&self) -> Link {
        link_of(self@)
    }

    fn stored_hash(&self) -> (hash: &String) {
        &self.hash
    }

    fn named_previous_hash(&self) -> (hash: &String) {
        &self.previous_hash
    }

    fn recomputed_hash(&self) -> (hash: String) {
        self.calculate_hash()
    }
}

impl Block {
    /// Whether the stored hash is the hash of the block's content.
    pub open spec fn is_sealed(&self) -> bool {
        self@.hash == block_hash(self@)
    }

    /// Builds the block with the given content and seals it.
    pub fn seal(
        index: u64,
        previous_hash: String,
        timestamp: u64,
        transactions: Vec<Transaction>,
        validator: String,
    ) -> (block: Self)
        ensures
            block@.index == index,
            block@.previous_hash == previous_hash@,
            block@.timestamp == timestamp,
            block@.transactions == transaction_views(transactions@),
            block@.validator == validator@,
            block.is_sealed(),
    {
        let mut block = Self {
            index,
            previous_hash,
            timestamp,
            transactions,
            validator,
            hash: String::new(),
        };
        block.hash = block.calculate_hash();
        block
    }

    /// Builds a block stamped with the current time and seals it.
    pub fn new(
        index: u64,
        previous_hash: String,
        transactions: Vec<Transaction>,
        validator: String,
    ) -> (block: Self)
        ensures
            block@.index == index,
            block@.previous_hash == previous_hash@,
            block@.transactions == transaction_views(transactions@),
            block@.validator == validator@,
            block.is_sealed(),
    {
        Self::seal(index, previous_hash, now_millis(), transactions, validator)
    }

    /// The fixed first block of every chain.
    pub fn genesis() -> (block: Self)
        ensures
            block@ == genesis_view(),
            block.is_sealed(),
    {
        let transactions: Vec<Transaction> = Vec::new();
        assert(transaction_views(transactions@) =~= Seq::empty());
        let block = Self::seal(
            0,
            String::from_str("0"),
            0,
            transactions,
            String::from_str("System"),
        );
        assert(block_text(block@) == block_text(genesis_content()));
        block
    }

    /// Recomputes the hash of the block's content. The stored hash is neither
    /// read nor changed.
    pub fn calculate_hash(&self) -> (hash: String)
        ensures
            hash@ == block_hash(self@),
            hash@.len() == 64,
    {
        let mut text = decimal_string(self.index);
        let timestamp = decimal_string(self.timestamp);
        text.append(timestamp.as_str());
        text.append(self.previous_hash.as_str());
        text.append(self.validator.as_str());
        let transactions = transactions_to_json(&self.transactions);
        text.append(transactions.as_str());
        assert(text@ =~= block_text(self@));
        sha256_hex(text.as_str())
    }
}

} // verus!
