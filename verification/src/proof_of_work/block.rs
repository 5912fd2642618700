//! Blocks of the mined ledger, their sealing hash and the search for a nonce.

use super::transaction::{raw_data, transaction_views, Transaction, TransactionView};
use crate::audit::{
    fault_at, is_first_fault, is_sound, lemma_resealing_is_reported, lemma_tampering_is_reported,
    Link, Linked,
};
use crate::error::{ChainFault, FaultKind};
use crate::clock::now_rfc3339;
use crate::hashing::{hex_text, lemma_hex_text_injective, sha256_digest, sha256_hex};
use crate::text::{decimal_string, decimal_text};
use vstd::prelude::*;
use vstd::string::StrSliceExecFns;
use vstd::string::StringExecFns;

verus! {

/// An ordered batch of transactions, linked to the block before it and sealed
/// by a hash over its content.
#[derive(Debug)]
pub struct Block {
    pub index: u64,
    /// When the block was last sealed, as an RFC 3339 timestamp.
    pub timestamp: String,
    pub transactions: Vec<Transaction>,
    pub previous_hash: String,
    pub hash: String,
    /// The number that mining varies until the hash meets the difficulty.
    pub nonce: u64,
}

/// The mathematical content of a [`Block`].
pub struct BlockView {
    pub index: u64,
    pub timestamp: Seq<char>,
    pub transactions: Seq<TransactionView>,
    pub previous_hash: Seq<char>,
    pub hash: Seq<char>,
    pub nonce: u64,
}

impl View for Block {
    type V = BlockView;

    open spec fn view(&self) -> BlockView {
        BlockView {
            index: self.index,
            timestamp: self.timestamp@,
            transactions: transaction_views(self.transactions@),
            previous_hash: self.previous_hash@,
            hash: self.hash@,
            nonce: self.nonce,
        }
    }
}

/// The contents of a vector of blocks.
pub open spec fn block_views(blocks: Seq<Block>) -> Seq<BlockView> {
    blocks.map_values(|b: Block| b@)
}

/// The raw data of every transaction, one after the other.
pub open spec fn transactions_text(txs: Seq<TransactionView>) -> Seq<char>
    decreases txs.len(),
{
    if txs.len() == 0 {
        Seq::empty()
    } else {
        transactions_text(txs.drop_last()) + raw_data(txs.last())
    }
}

/// The canonical text of a block, which is what the seal covers: index,
/// timestamp, the raw data of every transaction, previous hash and nonce, in
/// that order and with nothing between them.
///
/// The stored hash is not part of the text. Neither are the signature and
/// the reward mark of a transaction, which its raw data leaves out. Because
/// the parts are joined without a separator, two blocks can have one text
/// although their fields differ, where the end of one part reads as the
/// beginning of the next.
pub open spec fn block_text(b: BlockView) -> Seq<char> {
    decimal_text(b.index as nat) + b.timestamp + transactions_text(b.transactions)
        + b.previous_hash + decimal_text(b.nonce as nat)
}

/// The hash that seals a block: the SHA-256 digest of its canonical text, in
/// lower-case hexadecimal. It depends on nothing but that text.
pub open spec fn block_hash(b: BlockView) -> Seq<char> {
    hex_text(sha256_digest(block_text(b)))
}

/// The hashes that an audit reads off a block.
pub open spec fn link_of(b: BlockView) -> Link {
    Link { previous_hash: b.previous_hash, hash: b.hash, content_hash: block_hash(b) }
}

/// The hashes that an audit reads off a chain.
pub open spec fn links_of(chain: Seq<BlockView>) -> Seq<Link> {
    chain.map_values(|b: BlockView| link_of(b))
}

/// Different content gives a different hash, unless SHA-256 gives the two
/// canonical texts one digest.
pub proof fn lemma_hash_follows_digest(a: BlockView, b: BlockView)
    ensures
        block_hash(a) == block_hash(b) <==> sha256_digest(block_text(a)) == sha256_digest(
            block_text(b),
        ),
{
    if block_hash(a) == block_hash(b) {
        lemma_hex_text_injective(sha256_digest(block_text(a)), sha256_digest(block_text(b)));
    }
}

/// Tamper-evidence: where a block of a sound chain is replaced by one that
/// stores the same hash but has other content, the audit reports a bad hash
/// at that block, unless SHA-256 gives the two canonical texts one digest.
pub proof fn lemma_tampered_block_is_reported(chain: Seq<BlockView>, i: usize, tampered: BlockView)
    requires
        is_sound(links_of(chain)),
        1 <= i < chain.len(),
        tampered.hash == chain[i as int].hash,
        sha256_digest(block_text(tampered)) != sha256_digest(block_text(chain[i as int])),
    ensures
        is_first_fault(
            links_of(chain.update(i as int, tampered)),
            ChainFault { index: i, kind: FaultKind::BadHash },
        ),
{
    lemma_hash_follows_digest(tampered, chain[i as int]);
    assert(links_of(chain.update(i as int, tampered)) =~= links_of(chain).update(
        i as int,
        link_of(tampered),
    ));
    lemma_tampering_is_reported(links_of(chain), i, link_of(tampered));
}

/// Resealing does not hide tampering: where a block of a sound chain is
/// replaced by one with other content that is sealed again and names the
/// same previous hash, the audit reports a bad linkage at the block that
/// follows, unless SHA-256 gives the two canonical texts one digest.
pub proof fn lemma_resealed_block_is_reported(chain: Seq<BlockView>, i: usize, resealed: BlockView)
    requires
        is_sound(links_of(chain)),
        1 <= i,
        i + 1 < chain.len(),
        i + 1 <= usize::MAX,
        resealed.hash == block_hash(resealed),
        resealed.previous_hash == chain[i as int].previous_hash,
        sha256_digest(block_text(resealed)) != sha256_digest(block_text(chain[i as int])),
    ensures
        is_first_fault(
            links_of(chain.update(i as int, resealed)),
            ChainFault { index: (i + 1) as usize, kind: FaultKind::BadLinkage },
        ),
{
    lemma_hash_follows_digest(resealed, chain[i as int]);
    assert(fault_at(links_of(chain), i as int) is None);
    assert(links_of(chain.update(i as int, resealed)) =~= links_of(chain).update(
        i as int,
        link_of(resealed),
    ));
    lemma_resealing_is_reported(links_of(chain), i, link_of(resealed));
}

/// Whether `hash` begins with at least `difficulty` zero digits.
pub open spec fn meets_difficulty(hash: Seq<char>, difficulty: nat) -> bool {
    &&& difficulty <= hash.len()
    &&& forall|i: int| 0 <= i < difficulty ==> hash[i] == '0'
}

/// A hash that meets a difficulty meets every lower one: raising the
/// difficulty can only shrink the set of hashes that pass.
pub proof fn lemma_lower_difficulty_is_met(hash: Seq<char>, higher: nat, lower: nat)
    requires
        meets_difficulty(hash, higher),
        lower <= higher,
    ensures
        meets_difficulty(hash, lower),
{
}

/// The block after one attempt at sealing: the nonce raised by one, the
/// timestamp taken, and the hash of that content stored.
pub open spec fn attempted(b: BlockView, timestamp: Seq<char>) -> BlockView {
    let content = BlockView { nonce: (b.nonce + 1) as u64, timestamp, ..b };
    BlockView { hash: block_hash(content), ..content }
}

/// The block after one attempt for each of `stamps`, in order.
pub open spec fn searched(b: BlockView, stamps: Seq<Seq<char>>) -> BlockView
    decreases stamps.len(),
{
    if stamps.len() == 0 {
        b
    } else {
        attempted(searched(b, stamps.drop_last()), stamps.last())
    }
}

/// Whether a block is mined at `difficulty`: it is sealed, and the hash it
/// is sealed with begins with that many zero digits.
pub open spec fn is_mined(b: BlockView, difficulty: nat) -> bool {
    b.hash == block_hash(b) && meets_difficulty(b.hash, difficulty)
}

/// Whether the search had reason to make each of its attempts: before every
/// one of them the block was not mined, for want of a seal or of the zero
/// digits, and the nonce could still be raised.
pub open spec fn search_went_on(b: BlockView, stamps: Seq<Seq<char>>, difficulty: nat) -> bool {
    forall|k: int|
        0 <= k < stamps.len() ==> {
            &&& !is_mined(#[trigger] searched(b, stamps.take(k)), difficulty)
            &&& searched(b, stamps.take(k)).nonce < u64::MAX
        }
}

/// A search that went on raised the nonce once per attempt, sealed the block
/// if it made any attempt, and touched nothing but nonce, timestamp and hash.
pub proof fn lemma_searched(b: BlockView, stamps: Seq<Seq<char>>, difficulty: nat)
    requires
        search_went_on(b, stamps, difficulty),
    ensures
        searched(b, stamps).nonce == b.nonce + stamps.len(),
        searched(b, stamps).index == b.index,
        searched(b, stamps).transactions == b.transactions,
        searched(b, stamps).previous_hash == b.previous_hash,
        stamps.len() > 0 ==> searched(b, stamps).hash == block_hash(searched(b, stamps)),
    decreases stamps.len(),
{
    if stamps.len() > 0 {
        let before = stamps.drop_last();
        assert forall|k: int| 0 <= k < before.len() implies {
            &&& !is_mined(#[trigger] searched(b, before.take(k)), difficulty)
            &&& searched(b, before.take(k)).nonce < u64::MAX
        } by {
            assert(before.take(k) =~= stamps.take(k));
        }
        lemma_searched(b, before, difficulty);
        assert(stamps.take(stamps.len() - 1) =~= before);
        let last = searched(b, before);
        assert(last.nonce < u64::MAX);
        let content = BlockView { nonce: (last.nonce + 1) as u64, timestamp: stamps.last(), ..last };
        assert(block_text(attempted(last, stamps.last())) == block_text(content));
    }
}

/// Whether `hash` begins with at least `difficulty` zero digits.
pub fn hash_meets_difficulty(hash: &str, difficulty: usize) -> (meets: bool)
    ensures
        meets == meets_difficulty(hash@, difficulty as nat),
{
    let length = hash.unicode_len();
    if length < difficulty {
        return false;
    }
    let mut i: usize = 0;
    while i < difficulty
        invariant
            i <= difficulty <= length,
            length == hash@.len(),
            forall|j: int| 0 <= j < i ==> hash@[j] == '0',
        decreases difficulty - i,
    {
        if hash.get_char(i) != '0' {
            return false;
        }
        i = i + 1;
    }
    true
}

impl Linked for Block {
    open spec fn link(&self) -> Link {
        link_of(self@)
    }

    fn stored_hash(&self) -> (hash: &String) {
        &self.hash
    }

    fn named_previous_hash(&self) -> (hash: &String) {
        &self.previous_hash
    }

    fn recomputed_hash(&self) -> (hash: String) {
        self.calculate_hash()
    }
}

impl Block {
    /// Whether the stored hash is the hash of the block's content.
    pub open spec fn is_sealed(&self) -> bool {
        self@.hash == block_hash(self@)
    }

    /// An unsealed block: no timestamp, no hash, and a nonce of zero.
    pub fn new(index: u64, transactions: Vec<Transaction>, previous_hash: &str) -> (block: Self)
        ensures
            block.transactions == transactions,
            block@ == (BlockView {
                index,
                timestamp: Seq::empty(),
                transactions: transaction_views(transactions@),
                previous_hash: previous_hash@,
                hash: Seq::empty(),
                nonce: 0,
            }),
    {
        Self {
            index,
            transactions,
            previous_hash: String::from_str(previous_hash),
            timestamp: String::new(),
            hash: String::new(),
            nonce: 0,
        }
    }

    /// The first block of a chain, mined at `difficulty`: index zero, no
    /// transactions, and the sentinel `0` in place of a previous hash.
    ///
    /// The block comes back sealed, and its hash meets the difficulty unless
    /// every nonce was tried in vain.
    pub fn genesis(difficulty: usize) -> (block: Self)
        ensures
            block@.index == 0,
            block@.transactions.len() == 0,
            block@.previous_hash == "0"@,
            block.is_sealed(),
            meets_difficulty(block@.hash, difficulty as nat) || block@.nonce == u64::MAX,
    {
        let mut block = Block {
            index: 0,
            transactions: Vec::new(),
            previous_hash: String::from_str("0"),
            timestamp: now_rfc3339(),
            hash: String::new(),
            nonce: 0,
        };
        assert(block@.transactions =~= Seq::empty());
        block.mine_block(difficulty);
        block
    }

    /// Recomputes the hash of the block's content. The stored hash is neither
    /// read nor changed.
    pub fn calculate_hash(&self) -> (hash: String)
        ensures
            hash@ == block_hash(self@),
            hash@.len() == 64,
    {
        let ghost views = transaction_views(self.transactions@);
        let mut text = decimal_string(self.index);
        text.append(self.timestamp.as_str());
        let ghost head = text@;
        let n = self.transactions.len();
        let mut i: usize = 0;
        while i < n
            invariant
                n == self.transactions@.len(),
                i <= n,
                views == transaction_views(self.transactions@),
                text@ == head + transactions_text(views.take(i as int)),
            decreases n - i,
        {
            let data = self.transactions[i].get_raw_transaction_data();
            text.append(data.as_str());
            proof {
                assert(views.take(i + 1).drop_last() =~= views.take(i as int));
                assert(text@ =~= head + transactions_text(views.take(i + 1)));
            }
            i = i + 1;
        }
        assert(views.take(n as int) =~= views);
        text.append(self.previous_hash.as_str());
        let nonce = decimal_string(self.nonce);
        text.append(nonce.as_str());
        assert(text@ =~= block_text(self@));
        sha256_hex(text.as_str())
    }

    /// One attempt at sealing: takes the nonce and the timestamp, and stores
    /// the hash that the content then has.
    pub fn stamp(&mut self, nonce: u64, timestamp: String)
        ensures
            final(self)@.nonce == nonce,
            final(self)@.timestamp == timestamp@,
            final(self)@.index == old(self)@.index,
            final(self).transactions == old(self).transactions,
            final(self)@.previous_hash == old(self)@.previous_hash,
            final(self).is_sealed(),
    {
        self.nonce = nonce;
        self.timestamp = timestamp;
        self.hash = self.calculate_hash();
    }

    /// Whether the block is mined at `difficulty`: sealed, with a hash that
    /// begins with that many zero digits.
    pub fn is_mined_at(&self, difficulty: usize) -> (mined: bool)
        ensures
            mined == is_mined(self@, difficulty as nat),
    {
        hash_meets_difficulty(self.hash.as_str(), difficulty) && self.hash == self.calculate_hash()
    }

    /// Proof of work: as long as the block is not mined at `difficulty`,
    /// raises the nonce by one, takes the current time as the timestamp and
    /// reseals.
    ///
    /// Returns whether the block is mined in the end: sealed, with a hash
    /// that begins with `difficulty` zero digits. The search makes an attempt
    /// exactly as long as the block is not mined and the nonce can still be
    /// raised, so it gives up only at the last nonce. A block that is mined
    /// already is left as it is; one whose stored hash is not the hash of
    /// its content is sealed by the first attempt, whatever that hash
    /// begins with.
    pub fn mine_block(&mut self, difficulty: usize) -> (mined: bool)
        ensures
            mined == is_mined(final(self)@, difficulty as nat),
            mined ==> final(self).is_sealed(),
            !mined ==> final(self)@.nonce == u64::MAX,
            exists|stamps: Seq<Seq<char>>|
                final(self)@ == #[trigger] searched(old(self)@, stamps) && search_went_on(
                    old(self)@,
                    stamps,
                    difficulty as nat,
                ),
            final(self).transactions == old(self).transactions,
            final(self)@.index == old(self)@.index,
            final(self)@.previous_hash == old(self)@.previous_hash,
            final(self)@ == old(self)@ || (final(self).is_sealed() && final(self)@.nonce > old(
                self,
            )@.nonce),
    {
        let ghost start = self@;
        let ghost mut stamps: Seq<Seq<char>> = Seq::empty();
        while !self.is_mined_at(difficulty)
            invariant
                start == old(self)@,
                self.transactions == old(self).transactions,
                self@ == searched(start, stamps),
                search_went_on(start, stamps, difficulty as nat),
            decreases u64::MAX - self.nonce,
        {
            if self.nonce == u64::MAX {
                proof {
                    lemma_searched(start, stamps, difficulty as nat);
                }
                return false;
            }
            let timestamp = now_rfc3339();
            let ghost before = self@;
            let ghost tried = stamps;
            self.stamp(self.nonce + 1, timestamp);
            proof {
                stamps = tried.push(timestamp@);
                assert(stamps.drop_last() =~= tried);
                assert(block_text(self@) == block_text(attempted(before, timestamp@)));
                assert(self@ == attempted(before, timestamp@));
                assert forall|k: int| 0 <= k < stamps.len() implies {
                    &&& !is_mined(#[trigger] searched(start, stamps.take(k)), difficulty as nat)
                    &&& searched(start, stamps.take(k)).nonce < u64::MAX
                } by {
                    if k < tried.len() {
                        assert(stamps.take(k) =~= tried.take(k));
                    } else {
                        assert(stamps.take(k) =~= tried);
                    }
                }
            }
        }
        proof {
            lemma_searched(start, stamps, difficulty as nat);
        }
        true
    }
}

} // verus!
