//! The mined ledger: admission of transactions, block production, the audit
//! of the chain and the adjustment of the difficulty.

use super::block::{
    block_hash, block_views, is_mined, lemma_searched, link_of, links_of, meets_difficulty,
    search_went_on,
    searched, Block, BlockView,
};
use super::transaction::{reward_sender, transaction_views, Transaction, TransactionView};
use crate::accounts::{
    admission, credit, crediting, lemma_crediting, open_account, opened, total_balance, transfer,
};
use crate::address_map::{AddressMap, Entries};
use crate::audit::{
    audit, chain_links, fault_at, is_linked, is_sound, is_verdict, lemma_append_keeps_linked,
};
use crate::clock::{seconds_between, timestamps_apart};
use crate::error::{ChainFault, LedgerError};
use vstd::prelude::*;
use vstd::string::StringExecFns;

verus! {

/// The number of units that make one coin. Amounts count units.
pub const UNITS_PER_COIN: u64 = 100;

/// What a reward pays: half a coin.
pub const MINING_REWARD: u64 = UNITS_PER_COIN / 2;

/// The chain of mined blocks, the transactions that wait for the next one,
/// and the balances as those transactions leave them.
pub struct Blockchain {
    pub chain: Vec<Block>,
    /// Accepted transactions that wait for the next block, oldest first.
    pub pending_transactions: Vec<Transaction>,
    /// What every address owns, with the pending transactions applied.
    pub balances: AddressMap<u64>,
    /// The number of zero digits that a block's hash must begin with.
    pub difficulty: usize,
    /// The number of seconds that a block should take.
    pub target_time: u64,
}

/// What accepting `tx` does to `balances`: the balances after it, or the
/// reason for which it is refused.
///
/// A transaction that moves nothing is refused. A reward credits its
/// receiver with the fixed reward and debits nobody. A transfer needs a
/// sender with a balance that covers the amount, and moves the amount from
/// the sender to the receiver at once.
pub open spec fn acceptance(balances: Entries<u64>, tx: TransactionView) -> Result<
    Entries<u64>,
    LedgerError,
> {
    if tx.amount == 0 {
        Err(LedgerError::InvalidAmount)
    } else if tx.is_reward {
        crediting(balances, tx.receiver, MINING_REWARD)
    } else {
        admission(balances, tx.sender, tx.receiver, tx.amount)
    }
}

/// The difficulty that follows `difficulty` once a block has taken
/// `interval` seconds: one more if that was less than the target, one less if
/// it was more and the difficulty is above one, and the same otherwise.
pub open spec fn adjusted_difficulty(difficulty: usize, interval: int, target_time: u64) -> int {
    if interval < target_time {
        difficulty + 1
    } else if interval > target_time && difficulty > 1 {
        difficulty - 1
    } else {
        difficulty as int
    }
}

/// The difficulty moves by one at most, and from one or above it never
/// falls below one.
pub proof fn lemma_difficulty_moves_by_one(difficulty: usize, interval: int, target_time: u64)
    ensures
        difficulty - 1 <= adjusted_difficulty(difficulty, interval, target_time) <= difficulty + 1,
        difficulty >= 1 ==> adjusted_difficulty(difficulty, interval, target_time) >= 1,
{
}

/// The difficulty that follows `difficulty` on top of `chain`.
///
/// Nothing changes before the chain holds two blocks besides the genesis
/// block, nor where a timestamp of the last two blocks cannot be read.
/// Otherwise the time between the last two blocks decides.
pub open spec fn difficulty_after(chain: Seq<BlockView>, difficulty: usize, target_time: u64) -> int {
    if chain.len() < 3 {
        difficulty as int
    } else {
        match seconds_between(
            chain[chain.len() - 1].timestamp,
            chain[chain.len() - 2].timestamp,
        ) {
            Some(interval) => adjusted_difficulty(difficulty, interval, target_time),
            None => difficulty as int,
        }
    }
}

/// The difficulty that follows `difficulty` once a block has taken
/// `interval` seconds.
pub fn next_difficulty(difficulty: usize, interval: i64, target_time: u64) -> (next: usize)
    requires
        difficulty < usize::MAX,
    ensures
        next == adjusted_difficulty(difficulty, interval as int, target_time),
{
    if (interval as i128) < target_time as i128 {
        difficulty + 1
    } else if interval as i128 > target_time as i128 && difficulty > 1 {
        difficulty - 1
    } else {
        difficulty
    }
}

/// On top of any chain the difficulty moves by one at most, and from one or
/// above it never falls below one.
pub proof fn lemma_difficulty_after_moves_by_one(
    chain: Seq<BlockView>,
    difficulty: usize,
    target_time: u64,
)
    ensures
        difficulty - 1 <= difficulty_after(chain, difficulty, target_time) <= difficulty + 1,
        difficulty >= 1 ==> difficulty_after(chain, difficulty, target_time) >= 1,
{
}

/// The reward that a block pays its miner, as the block's first transaction.
pub open spec fn reward_view(miner: Seq<char>) -> TransactionView {
    TransactionView {
        sender: reward_sender(),
        receiver: miner,
        amount: MINING_REWARD,
        is_reward: true,
        signature: None,
    }
}

/// Why no block can be mined for `miner` on top of `ledger` before the
/// search begins, or `None` where the search can begin.
pub open spec fn production_refusal(ledger: &Blockchain, miner: Seq<char>) -> Option<LedgerError> {
    if ledger.chain@.len() == 0 {
        Some(LedgerError::NoGenesisBlock)
    } else if ledger.pending_transactions@.len() == 0 {
        Some(LedgerError::NoPendingWork)
    } else if ledger.chain@.last().index == u64::MAX {
        Some(LedgerError::IndexOverflow)
    } else if crediting(ledger.balances@, miner, MINING_REWARD) is Err {
        Some(LedgerError::BalanceOverflow)
    } else {
        None
    }
}

/// The block that the search for a nonce starts from: it follows the last
/// block of the chain, carries the miner's reward and then every pending
/// transaction in order, and has no timestamp, no hash and a nonce of zero.
pub open spec fn candidate(ledger: &Blockchain, miner: Seq<char>) -> BlockView {
    BlockView {
        index: (ledger.chain@.last().index + 1) as u64,
        timestamp: Seq::empty(),
        transactions: seq![reward_view(miner)] + transaction_views(ledger.pending_transactions@),
        previous_hash: ledger.chain@.last()@.hash,
        hash: Seq::empty(),
        nonce: 0,
    }
}

/// Whether `after` is `before` with one block mined for `miner`.
///
/// The block is what a search from the candidate block arrives at, a search
/// that made each attempt because the block was not mined yet; it is sealed
/// and its hash meets the difficulty in force. It is appended, the pending
/// pool is empty afterwards, the miner has been credited with the reward,
/// and the difficulty has been adjusted to the time the block took.
pub open spec fn mined_onto(before: &Blockchain, after: &Blockchain, miner: Seq<char>) -> bool {
    let block = after.chain@.last()@;
    let last = before.chain@.last()@;
    &&& after.chain@.len() == before.chain@.len() + 1
    &&& after.chain@.drop_last() == before.chain@
    &&& exists|stamps: Seq<Seq<char>>|
        block == #[trigger] searched(candidate(before, miner), stamps) && search_went_on(
            candidate(before, miner),
            stamps,
            before.difficulty as nat,
        )
    &&& block.index == last.index + 1
    &&& block.previous_hash == last.hash
    &&& block.transactions == seq![reward_view(miner)] + transaction_views(
        before.pending_transactions@,
    )
    &&& meets_difficulty(block.hash, before.difficulty as nat)
    &&& block.hash == block_hash(block)
    &&& after.pending_transactions@.len() == 0
    &&& crediting(before.balances@, miner, MINING_REWARD) == Ok::<Entries<u64>, LedgerError>(
        after.balances@,
    )
    &&& after.target_time == before.target_time
    &&& after.difficulty == difficulty_after(
        block_views(after.chain@),
        before.difficulty,
        before.target_time,
    )
}

/// Whether a search from the candidate block ran out of nonces: it made
/// each attempt because the block was not mined yet, reached the last
/// nonce, and was not mined there either.
pub open spec fn search_ran_out(ledger: &Blockchain, miner: Seq<char>) -> bool {
    exists|stamps: Seq<Seq<char>>|
        search_went_on(candidate(ledger, miner), stamps, ledger.difficulty as nat) && (
        #[trigger] searched(candidate(ledger, miner), stamps)).nonce == u64::MAX
            && !is_mined(searched(candidate(ledger, miner), stamps), ledger.difficulty as nat)
}

/// Linkage: a mined block is sealed and names the hash of the block before
/// it, so mining keeps a linked chain linked and a sound chain sound.
pub proof fn lemma_mining_keeps_linkage(before: &Blockchain, after: &Blockchain, miner: Seq<char>)
    requires
        before.chain@.len() > 0,
        mined_onto(before, after, miner),
    ensures
        is_linked(links_of(block_views(before.chain@))) ==> is_linked(
            links_of(block_views(after.chain@)),
        ),
        is_sound(links_of(block_views(before.chain@))) ==> is_sound(
            links_of(block_views(after.chain@)),
        ),
{
    let links = links_of(block_views(before.chain@));
    let block = after.chain@.last()@;
    assert(after.chain@ =~= before.chain@.push(after.chain@.last()));
    assert(links_of(block_views(after.chain@)) =~= links.push(link_of(block)));
    lemma_append_keeps_linked(links, link_of(block));
}

impl Blockchain {
    /// A ledger whose chain holds the genesis block, mined at `difficulty`.
    ///
    /// Neither the difficulty nor the target time may be zero.
    pub fn new(difficulty: usize, target_time: u64) -> (outcome: Result<Self, LedgerError>)
        ensures
            match outcome {
                Ok(ledger) => {
                    &&& difficulty > 0
                    &&& target_time > 0
                    &&& ledger.difficulty == difficulty
                    &&& ledger.target_time == target_time
                    &&& ledger.pending_transactions@.len() == 0
                    &&& ledger.balances@ == Entries::<u64>::empty()
                    &&& ledger.chain@.len() == 1
                    &&& ledger.chain@[0]@.index == 0
                    &&& ledger.chain@[0]@.transactions.len() == 0
                    &&& ledger.chain@[0]@.previous_hash == "0"@
                    &&& ledger.chain@[0].is_sealed()
                    &&& meets_difficulty(ledger.chain@[0]@.hash, difficulty as nat)
                        || ledger.chain@[0]@.nonce == u64::MAX
                },
                Err(reason) => if difficulty == 0 {
                    reason == LedgerError::ZeroDifficulty
                } else {
                    target_time == 0 && reason == LedgerError::ZeroTargetTime
                },
            },
    {
        if difficulty == 0 {
            return Err(LedgerError::ZeroDifficulty);
        }
        if target_time == 0 {
            return Err(LedgerError::ZeroTargetTime);
        }
        let mut chain: Vec<Block> = Vec::new();
        chain.push(Block::genesis(difficulty));
        Ok(
            Self {
                difficulty,
                target_time,
                chain,
                pending_transactions: Vec::new(),
                balances: AddressMap::new(),
            },
        )
    }

    /// Opens an account: gives `address` the balance `opening` unless it has
    /// a balance on record. Nothing else changes.
    pub fn open_account(&mut self, address: &str, opening: u64)
        ensures
            final(self).balances@ == opened(old(self).balances@, address@, opening),
            final(self).chain == old(self).chain,
            final(self).pending_transactions == old(self).pending_transactions,
            final(self).difficulty == old(self).difficulty,
            final(self).target_time == old(self).target_time,
    {
        let who = String::from_str(address);
        open_account(&mut self.balances, &who, opening);
    }

    /// The balance of `address`, with the pending transactions applied;
    /// `None` where the address has no balance on record.
    pub fn get_balance(&self, address: &str) -> (balance: Option<u64>)
        ensures
            balance == self.balances@.get(address@),
    {
        let who = String::from_str(address);
        match self.balances.get(&who) {
            Some(balance) => Some(*balance),
            None => None,
        }
    }

    /// Accepts a transaction: applies it to the balances at once and queues
    /// it for the next block. A refused transaction leaves the ledger as it
    /// was.
    pub fn add_transaction(&mut self, transaction: Transaction) -> (outcome: Result<
        (),
        LedgerError,
    >)
        ensures
            match acceptance(old(self).balances@, transaction@) {
                Ok(balances) => {
                    &&& outcome is Ok
                    &&& final(self).balances@ == balances
                    &&& total_balance(final(self).balances@) == total_balance(old(self).balances@)
                        + if transaction.is_reward {
                        MINING_REWARD as nat
                    } else {
                        0
                    }
                    &&& transaction_views(final(self).pending_transactions@) == transaction_views(
                        old(self).pending_transactions@,
                    ).push(transaction@)
                    &&& final(self).chain == old(self).chain
                    &&& final(self).difficulty == old(self).difficulty
                    &&& final(self).target_time == old(self).target_time
                },
                Err(reason) => outcome == Err::<(), LedgerError>(reason) && *final(self) == *old(
                    self,
                ),
            },
    {
        if transaction.amount == 0 {
            return Err(LedgerError::InvalidAmount);
        }
        proof {
            use_type_invariant(&self.balances);
            if crediting(self.balances@, transaction@.receiver, MINING_REWARD) is Ok {
                lemma_crediting(self.balances@, transaction@.receiver, MINING_REWARD);
            }
        }
        let applied = if transaction.is_reward {
            credit(&mut self.balances, &transaction.receiver, MINING_REWARD)
        } else {
            transfer(
                &mut self.balances,
                &transaction.sender,
                &transaction.receiver,
                transaction.amount,
            )
        };
        match applied {
            Ok(_) => {},
            Err(reason) => {
                return Err(reason);
            },
        }
        self.pending_transactions.push(transaction);
        assert(transaction_views(self.pending_transactions@) =~= transaction_views(
            old(self).pending_transactions@,
        ).push(transaction@));
        Ok(())
    }

    fn get_latest_block(&self) -> (block: &Block)
        requires
            self.chain@.len() > 0,
        ensures
            *block == self.chain@.last(),
    {
        &self.chain[self.chain.len() - 1]
    }

    fn get_second_last_block(&self) -> (block: &Block)
        requires
            self.chain@.len() > 1,
        ensures
            *block == self.chain@[self.chain@.len() - 2],
    {
        &self.chain[self.chain.len() - 2]
    }

    /// Whether `block` could follow the last block of the chain: it names
    /// that block's hash as its previous hash, and its stored hash is the
    /// hash of its content. No block can follow an empty chain.
    pub fn is_valid_block(&self, block: &Block) -> (valid: bool)
        ensures
            valid == (self.chain@.len() > 0 && block@.previous_hash == self.chain@.last()@.hash
                && block.is_sealed()),
    {
        if self.chain.len() == 0 {
            return false;
        }
        let latest_block = self.get_latest_block();
        block.previous_hash == latest_block.hash && block.hash == block.calculate_hash()
    }

    /// Audits the chain block by block and reports the first fault. The
    /// genesis block is not judged.
    pub fn audit_chain(&self) -> (verdict: Result<(), ChainFault>)
        ensures
            is_verdict(links_of(block_views(self.chain@)), verdict),
    {
        assert(chain_links(self.chain@) =~= links_of(block_views(self.chain@)));
        audit(&self.chain)
    }

    /// Whether the audit of the chain finds no fault.
    pub fn is_valid_chain(&self) -> (valid: bool)
        ensures
            valid == is_sound(links_of(block_views(self.chain@))),
    {
        match self.audit_chain() {
            Ok(_) => true,
            Err(fault) => {
                assert(fault_at(links_of(block_views(self.chain@)), fault.index as int) is Some);
                false
            },
        }
    }

    /// Adjusts the difficulty to the time between the last two blocks.
    pub fn adjust_difficulty(&mut self)
        requires
            old(self).difficulty < usize::MAX,
        ensures
            final(self).difficulty == difficulty_after(
                block_views(old(self).chain@),
                old(self).difficulty,
                old(self).target_time,
            ),
            final(self).chain == old(self).chain,
            final(self).pending_transactions == old(self).pending_transactions,
            final(self).balances == old(self).balances,
            final(self).target_time == old(self).target_time,
    {
        if self.chain.len() < 3 {
            return ;
        }
        let actual_time = timestamps_apart(
            self.get_latest_block().timestamp.as_str(),
            self.get_second_last_block().timestamp.as_str(),
        );
        match actual_time {
            Some(interval) => {
                self.difficulty = next_difficulty(self.difficulty, interval, self.target_time);
            },
            None => {},
        }
    }

    /// Mines the pending transactions into a new block for `miner_address`:
    /// puts the miner's reward in front of them, searches for a nonce at the
    /// difficulty in force, credits the miner, appends the block and adjusts
    /// the difficulty.
    ///
    /// Nothing happens where there is no genesis block, no pending
    /// transaction, no index left for the block or no room for the reward,
    /// nor where the search runs out of nonces.
    pub fn add_block(&mut self, miner_address: String) -> (outcome: Result<(), LedgerError>)
        requires
            old(self).difficulty < usize::MAX,
        ensures
            match outcome {
                Ok(_) => production_refusal(old(self), miner_address@) is None && mined_onto(
                    old(self),
                    final(self),
                    miner_address@,
                ),
                Err(reason) => {
                    &&& reason == match production_refusal(old(self), miner_address@) {
                        Some(r) => r,
                        None => LedgerError::MiningExhausted,
                    }
                    &&& production_refusal(old(self), miner_address@) is None ==> search_ran_out(
                        old(self),
                        miner_address@,
                    )
                    &&& final(self).chain == old(self).chain
                    &&& final(self).pending_transactions@ == old(self).pending_transactions@
                    &&& final(self).balances == old(self).balances
                    &&& final(self).difficulty == old(self).difficulty
                    &&& final(self).target_time == old(self).target_time
                },
            },
    {
        if self.chain.len() == 0 {
            return Err(LedgerError::NoGenesisBlock);
        }
        if self.pending_transactions.len() == 0 {
            return Err(LedgerError::NoPendingWork);
        }
        let previous_block = self.get_latest_block();
        if previous_block.index == u64::MAX {
            return Err(LedgerError::IndexOverflow);
        }
        let index = previous_block.index + 1;
        let previous_hash = previous_block.hash.clone();
        let held = match self.balances.get(&miner_address) {
            Some(balance) => *balance,
            None => 0,
        };
        if held > u64::MAX - MINING_REWARD {
            return Err(LedgerError::BalanceOverflow);
        }
        let mut transactions: Vec<Transaction> = Vec::new();
        std::mem::swap(&mut self.pending_transactions, &mut transactions);
        transactions.insert(0, Transaction::reward(miner_address.as_str(), MINING_REWARD));
        assert(transaction_views(transactions@) =~= seq![reward_view(miner_address@)]
            + transaction_views(old(self).pending_transactions@));

        let mut new_block = Block::new(index, transactions, previous_hash.as_str());
        let ghost start = new_block@;
        assert(start == candidate(old(self), miner_address@));
        let mined = new_block.mine_block(self.difficulty);
        let ghost stamps = choose|stamps: Seq<Seq<char>>|
            new_block@ == #[trigger] searched(start, stamps) && search_went_on(
                start,
                stamps,
                self.difficulty as nat,
            );
        if !mined {
            let mut restored = new_block.transactions;
            restored.remove(0);
            assert(restored@ =~= old(self).pending_transactions@);
            self.pending_transactions = restored;
            assert(searched(start, stamps).nonce == u64::MAX);
            return Err(LedgerError::MiningExhausted);
        }
        proof {
            lemma_searched(start, stamps, self.difficulty as nat);
        }
        self.balances.insert(miner_address, held + MINING_REWARD);
        self.chain.push(new_block);
        assert(self.chain@.drop_last() =~= old(self).chain@);
        assert(self.chain@.last()@ == searched(candidate(old(self), miner_address@), stamps));
        self.adjust_difficulty();
        Ok(())
    }
}

} // verus!
