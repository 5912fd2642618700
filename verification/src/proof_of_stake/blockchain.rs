//! The stake-weighted ledger: admission of transfers, the stake lottery and
//! block production.

use super::block::{block_hash, block_views, link_of, links_of, Block, BlockView};
use super::stake::Stake;
use super::transaction::{transaction_views, Transaction, TransactionView};
use super::validator::Validator;
use crate::accounts::{
    admission, credit, crediting, open_account, opened, total_balance, transfer,
};
use crate::address_map::{AddressMap, Entries};
use crate::audit::{
    audit, chain_links, fault_at, is_linked, is_sound, is_verdict, lemma_append_keeps_linked,
};
use crate::clock::now_millis;
use crate::entropy::random_below;
use crate::error::{ChainFault, LedgerError};
use crate::totals::{lemma_sum_bounds, lemma_sum_take_step, sum};
use vstd::prelude::*;
use vstd::string::StringExecFns;

verus! {

/// The chain of sealed blocks together with the accounts it has produced.
pub struct Blockchain {
    pub chain: Vec<Block>,
    pub validators: AddressMap<Validator>,
    pub stakes: AddressMap<Stake>,
    /// What every participant owns in all, staked or free.
    pub balances: AddressMap<u64>,
    /// Accepted transactions that wait for the next block, oldest first.
    pub pending_transactions: Vec<Transaction>,
    /// What the producer of a block is paid.
    pub reward: u64,
}

/// The stake of every validator, in the order of registration.
pub open spec fn stake_amounts(stakes: Entries<Stake>) -> Seq<u64> {
    stakes.values.map_values(|s: Stake| s.amount)
}

/// The sum of all stakes: the number of tickets in the lottery.
pub open spec fn total_stake(stakes: Entries<Stake>) -> nat {
    sum(stake_amounts(stakes))
}

/// Whether the validator at position `i` holds `ticket`.
///
/// The tickets are numbered from zero. Each validator holds as many
/// consecutive tickets as it has stake, in the order of registration, so a
/// validator without stake holds none.
pub open spec fn holds_ticket(stakes: Entries<Stake>, i: int, ticket: nat) -> bool {
    in_range(stake_amounts(stakes), i, ticket)
}

/// Whether `ticket` lies among the `amounts[i]` numbers that follow the sum
/// of the amounts before position `i`.
pub open spec fn in_range(amounts: Seq<u64>, i: int, ticket: nat) -> bool {
    &&& 0 <= i < amounts.len()
    &&& sum(amounts.take(i)) <= ticket
    &&& ticket < sum(amounts.take(i)) + amounts[i]
}

/// The position of the validator that holds `ticket`.
pub open spec fn winner(stakes: Entries<Stake>, ticket: nat) -> int
    recommends
        ticket < total_stake(stakes),
{
    choose|i: int| holds_ticket(stakes, i, ticket)
}

/// No ticket has two holders.
pub proof fn lemma_one_holder(stakes: Entries<Stake>, i: int, j: int, ticket: nat)
    requires
        holds_ticket(stakes, i, ticket),
        holds_ticket(stakes, j, ticket),
    ensures
        i == j,
{
    let amounts = stake_amounts(stakes);
    if i < j {
        lemma_sum_bounds(amounts.take(j), i);
        assert(amounts.take(j).take(i) =~= amounts.take(i));
    }
    if j < i {
        lemma_sum_bounds(amounts.take(i), j);
        assert(amounts.take(i).take(j) =~= amounts.take(j));
    }
}

/// Every ticket below the total stake has a holder, and no other ticket has one.
pub proof fn lemma_holder_exists(stakes: Entries<Stake>, ticket: nat)
    ensures
        ticket < total_stake(stakes) <==> exists|i: int| holds_ticket(stakes, i, ticket),
{
    let amounts = stake_amounts(stakes);
    if ticket < total_stake(stakes) {
        assert(amounts.take(amounts.len() as int) =~= amounts);
        lemma_holder_search(amounts, ticket, amounts.len() as int);
        let i = choose|i: int| in_range(amounts, i, ticket);
        assert(holds_ticket(stakes, i, ticket));
    }
    if exists|i: int| holds_ticket(stakes, i, ticket) {
        let i = choose|i: int| holds_ticket(stakes, i, ticket);
        lemma_sum_bounds(amounts, i);
    }
}

/// Among the first `n` amounts, some position's range holds a ticket that is
/// below their sum.
proof fn lemma_holder_search(amounts: Seq<u64>, ticket: nat, n: int)
    requires
        0 <= n <= amounts.len(),
        ticket < sum(amounts.take(n)),
    ensures
        exists|i: int| in_range(amounts, i, ticket),
    decreases n,
{
    if n == 0 {
        assert(amounts.take(0) =~= Seq::<u64>::empty());
    } else {
        lemma_sum_take_step(amounts, n - 1);
        if sum(amounts.take(n - 1)) <= ticket {
            assert(in_range(amounts, n - 1, ticket));
        } else {
            lemma_holder_search(amounts, ticket, n - 1);
        }
    }
}

/// Only stake wins: the holder of a ticket is registered with a stake above
/// zero, so an address without an entry in the stake map holds no ticket.
pub proof fn lemma_holder_has_stake(stakes: Entries<Stake>, i: int, ticket: nat)
    requires
        stakes.wf(),
        holds_ticket(stakes, i, ticket),
    ensures
        stakes.contains(stakes.keys[i]),
        stakes.get(stakes.keys[i]) matches Some(stake) && stake.amount > 0,
        forall|address: Seq<char>| !stakes.contains(address) ==> stakes.keys[i] != address,
{
    stakes.lemma_position(i);
}

/// The reward that a block pays its producer, as the block's first transaction.
pub open spec fn reward_transaction(producer: Seq<char>, reward: u64) -> TransactionView {
    TransactionView { sender: "System"@, recipient: producer, amount: reward }
}

/// Why no block can be produced for `ticket`, or `None` where one can.
pub open spec fn production_refusal(ledger: &Blockchain, ticket: nat) -> Option<LedgerError> {
    if ledger.chain@.len() == 0 {
        Some(LedgerError::NoGenesisBlock)
    } else if ledger.pending_transactions@.len() == 0 {
        Some(LedgerError::NoPendingWork)
    } else if ticket >= total_stake(ledger.stakes@) {
        Some(LedgerError::NoEligibleValidator)
    } else if ledger.chain@.last().index == u64::MAX {
        Some(LedgerError::IndexOverflow)
    } else if crediting(
        ledger.balances@,
        ledger.stakes@.keys[winner(ledger.stakes@, ticket)],
        ledger.reward,
    ) is Err {
        Some(LedgerError::BalanceOverflow)
    } else {
        None
    }
}

/// Production is owed: with a genesis block, pending work, an index left
/// for the next block, and room for the reward in the balance of every
/// registered stake holder, no ticket below the total stake is refused.
pub proof fn lemma_production_is_owed(ledger: &Blockchain)
    requires
        ledger.stakes@.wf(),
        ledger.chain@.len() > 0,
        ledger.pending_transactions@.len() > 0,
        ledger.chain@.last().index < u64::MAX,
        forall|i: int|
            0 <= i < ledger.stakes@.len() ==> crediting(
                ledger.balances@,
                #[trigger] ledger.stakes@.keys[i],
                ledger.reward,
            ) is Ok,
    ensures
        forall|ticket: nat|
            ticket < total_stake(ledger.stakes@) ==> #[trigger] production_refusal(ledger, ticket)
                is None,
{
    assert forall|ticket: nat| ticket < total_stake(ledger.stakes@) implies #[trigger]
        production_refusal(ledger, ticket) is None by {
        lemma_holder_exists(ledger.stakes@, ticket);
        let i = winner(ledger.stakes@, ticket);
        assert(holds_ticket(ledger.stakes@, i, ticket));
        assert(0 <= i < ledger.stakes@.len());
    }
}

/// Whether `after` is `before` with `block` produced for `ticket`.
///
/// The producer is the holder of the ticket. The block follows the last
/// block of the chain, carries the producer's reward and then every pending
/// transaction in order, and is sealed. It is appended, the pending pool is
/// empty afterwards, and the producer's balance has grown by the reward.
pub open spec fn produced(before: &Blockchain, after: &Blockchain, block: BlockView, ticket: nat) -> bool {
    let producer = before.stakes@.keys[winner(before.stakes@, ticket)];
    let last = before.chain@.last()@;
    &&& block.index == last.index + 1
    &&& block.previous_hash == last.hash
    &&& block.validator == producer
    &&& block.transactions == seq![reward_transaction(producer, before.reward)] + transaction_views(
        before.pending_transactions@,
    )
    &&& block.hash == block_hash(block)
    &&& after.chain@.len() == before.chain@.len() + 1
    &&& after.chain@.drop_last() == before.chain@
    &&& after.chain@.last()@ == block
    &&& after.pending_transactions@.len() == 0
    &&& crediting(before.balances@, producer, before.reward) == Ok::<Entries<u64>, LedgerError>(
        after.balances@,
    )
    &&& after.validators == before.validators
    &&& after.stakes == before.stakes
    &&& after.reward == before.reward
}

/// Linkage: a produced block names the hash of the block before it, so
/// production keeps a linked chain linked and a sound chain sound.
pub proof fn lemma_production_keeps_linkage(
    before: &Blockchain,
    after: &Blockchain,
    block: BlockView,
    ticket: nat,
)
    requires
        before.chain@.len() > 0,
        produced(before, after, block, ticket),
    ensures
        is_linked(links_of(block_views(before.chain@))) ==> is_linked(
            links_of(block_views(after.chain@)),
        ),
        is_sound(links_of(block_views(before.chain@))) ==> is_sound(
            links_of(block_views(after.chain@)),
        ),
{
    let links = links_of(block_views(before.chain@));
    assert(after.chain@ =~= before.chain@.push(after.chain@.last()));
    assert(links_of(block_views(after.chain@)) =~= links.push(link_of(block)));
    lemma_append_keeps_linked(links, link_of(block));
}

impl Blockchain {
    /// An empty ledger: no blocks, no accounts, and a reward of five per block.
    pub fn new() -> (ledger: Self)
        ensures
            ledger.chain@.len() == 0,
            ledger.validators@ == Entries::<Validator>::empty(),
            ledger.stakes@ == Entries::<Stake>::empty(),
            ledger.balances@ == Entries::<u64>::empty(),
            ledger.pending_transactions@.len() == 0,
            ledger.reward == 5,
    {
        Self {
            chain: Vec::new(),
            stakes: AddressMap::new(),
            validators: AddressMap::new(),
            balances: AddressMap::new(),
            pending_transactions: Vec::new(),
            reward: 5,
        }
    }

    /// Registers `validator` with `stake`, replacing what was registered under
    /// the same addresses. The stake's owner gets a balance equal to the stake
    /// unless it already has one.
    pub fn add_validator(&mut self, validator: Validator, stake: Stake)
        ensures
            final(self).validators@ == old(self).validators@.put(validator.address@, validator),
            final(self).stakes@ == old(self).stakes@.put(stake.owner@, stake),
            final(self).balances@ == opened(old(self).balances@, stake.owner@, stake.amount),
            final(self).chain == old(self).chain,
            final(self).pending_transactions == old(self).pending_transactions,
            final(self).reward == old(self).reward,
    {
        self.validators.insert(validator.address.clone(), validator);
        self.stakes.insert(stake.owner.clone(), stake.clone());
        open_account(&mut self.balances, &stake.owner, stake.amount);
    }

    /// Appends the genesis block.
    pub fn create_genesis_block(&mut self)
        ensures
            final(self).chain@.len() == old(self).chain@.len() + 1,
            final(self).chain@.drop_last() == old(self).chain@,
            final(self).chain@.last()@ == super::block::genesis_view(),
            final(self).validators == old(self).validators,
            final(self).stakes == old(self).stakes,
            final(self).balances == old(self).balances,
            final(self).pending_transactions == old(self).pending_transactions,
            final(self).reward == old(self).reward,
    {
        self.chain.push(Block::genesis());
        assert(self.chain@.drop_last() =~= old(self).chain@);
    }

    /// Accepts a transfer: checks it against the sender's balance, applies it
    /// to the balances at once, and queues it for the next block.
    ///
    /// A refused transfer leaves the ledger as it was.
    pub fn add_transaction(&mut self, transaction: Transaction) -> (outcome: Result<
        (),
        LedgerError,
    >)
        ensures
            match admission(
                old(self).balances@,
                transaction@.sender,
                transaction@.recipient,
                transaction@.amount,
            ) {
                Ok(balances) => {
                    &&& outcome is Ok
                    &&& final(self).balances@ == balances
                    &&& total_balance(final(self).balances@) == total_balance(old(self).balances@)
                    &&& transaction_views(final(self).pending_transactions@) == transaction_views(
                        old(self).pending_transactions@,
                    ).push(transaction@)
                    &&& final(self).chain == old(self).chain
                    &&& final(self).validators == old(self).validators
                    &&& final(self).stakes == old(self).stakes
                    &&& final(self).reward == old(self).reward
                },
                Err(reason) => outcome == Err::<(), LedgerError>(reason) && *final(self) == *old(
                    self,
                ),
            },
    {
        match transfer(
            &mut self.balances,
            &transaction.sender,
            &transaction.recipient,
            transaction.amount,
        ) {
            Ok(_) => {},
            Err(reason) => {
                return Err(reason);
            },
        }
        self.pending_transactions.push(transaction);
        assert(transaction_views(self.pending_transactions@) =~= transaction_views(
            old(self).pending_transactions@,
        ).push(transaction@));
        Ok(())
    }

    /// The number of tickets in the lottery: the sum of all stakes.
    pub fn total_stake(&self) -> (total: u128)
        ensures
            total == total_stake(self.stakes@),
    {
        proof {
            use_type_invariant(&self.stakes);
        }
        let ghost amounts = stake_amounts(self.stakes@);
        let n = self.stakes.len();
        let mut total: u128 = 0;
        let mut i: usize = 0;
        while i < n
            invariant
                n == self.stakes@.len(),
                amounts == stake_amounts(self.stakes@),
                amounts.len() == n,
                i <= n,
                total == sum(amounts.take(i as int)),
                total <= i * u64::MAX,
            decreases n - i,
        {
            proof {
                lemma_sum_take_step(amounts, i as int);
            }
            total = total + self.stakes.value_at(i).amount as u128;
            i = i + 1;
        }
        assert(amounts.take(n as int) =~= amounts);
        total
    }

    /// The position of the validator that holds `ticket`, if any does.
    pub fn holder_of_ticket(&self, ticket: u128) -> (holder: Option<usize>)
        ensures
            holder is Some <==> ticket < total_stake(self.stakes@),
            holder matches Some(i) ==> holds_ticket(self.stakes@, i as int, ticket as nat) && i
                == winner(self.stakes@, ticket as nat),
    {
        proof {
            use_type_invariant(&self.stakes);
        }
        let ghost amounts = stake_amounts(self.stakes@);
        let n = self.stakes.len();
        let mut below: u128 = 0;
        let mut i: usize = 0;
        while i < n
            invariant
                n == self.stakes@.len(),
                amounts == stake_amounts(self.stakes@),
                amounts.len() == n,
                i <= n,
                below == sum(amounts.take(i as int)),
                below <= ticket,
            decreases n - i,
        {
            let amount = self.stakes.value_at(i).amount as u128;
            proof {
                lemma_sum_take_step(amounts, i as int);
            }
            if ticket - below < amount {
                proof {
                    assert(holds_ticket(self.stakes@, i as int, ticket as nat));
                    lemma_holder_exists(self.stakes@, ticket as nat);
                    lemma_one_holder(
                        self.stakes@,
                        i as int,
                        winner(self.stakes@, ticket as nat),
                        ticket as nat,
                    );
                }
                return Some(i);
            }
            below = below + amount;
            i = i + 1;
        }
        assert(amounts.take(n as int) =~= amounts);
        None
    }

    /// Draws the producer of the next block: a validator picked at random,
    /// each with a chance in proportion to its stake. There is none to draw
    /// where nobody holds any stake.
    pub fn select_validator(&self) -> (selected: Option<String>)
        ensures
            selected is Some <==> total_stake(self.stakes@) > 0,
            selected matches Some(address) ==> self.stakes@.contains(address@)
                && self.stakes@.get(address@).unwrap().amount > 0,
    {
        proof {
            use_type_invariant(&self.stakes);
        }
        let total = self.total_stake();
        if total == 0 {
            return None;
        }
        let ticket = random_below(total);
        match self.holder_of_ticket(ticket) {
            Some(i) => {
                proof {
                    self.stakes@.lemma_position(i as int);
                }
                Some(self.stakes.key_at(i).clone())
            },
            None => None,
        }
    }

    /// Produces the block that `ticket` and `timestamp` determine.
    ///
    /// The ledger needs a genesis block and at least one pending transaction,
    /// and the ticket needs a holder, who becomes the producer. A refusal
    /// leaves the ledger as it was.
    pub fn produce_block(&mut self, ticket: u128, timestamp: u64) -> (outcome: Result<
        Block,
        LedgerError,
    >)
        ensures
            match production_refusal(old(self), ticket as nat) {
                Some(reason) => outcome == Err::<Block, LedgerError>(reason) && *final(self)
                    == *old(self),
                None => outcome matches Ok(block) && block@.timestamp == timestamp && produced(
                    old(self),
                    final(self),
                    block@,
                    ticket as nat,
                ),
            },
    {
        proof {
            use_type_invariant(&self.stakes);
        }
        if self.chain.len() == 0 {
            return Err(LedgerError::NoGenesisBlock);
        }
        if self.pending_transactions.len() == 0 {
            return Err(LedgerError::NoPendingWork);
        }
        let position = match self.holder_of_ticket(ticket) {
            Some(position) => position,
            None => {
                return Err(LedgerError::NoEligibleValidator);
            },
        };
        let last = &self.chain[self.chain.len() - 1];
        if last.index == u64::MAX {
            return Err(LedgerError::IndexOverflow);
        }
        let index = last.index + 1;
        let previous_hash = last.hash.clone();
        let producer = self.stakes.key_at(position).clone();
        match credit(&mut self.balances, &producer, self.reward) {
            Ok(_) => {},
            Err(reason) => {
                return Err(reason);
            },
        }
        let mut transactions: Vec<Transaction> = Vec::new();
        std::mem::swap(&mut self.pending_transactions, &mut transactions);
        transactions.insert(
            0,
            Transaction::new(String::from_str("System"), producer.clone(), self.reward),
        );
        assert(transaction_views(transactions@) =~= seq![
            reward_transaction(producer@, self.reward),
        ] + transaction_views(old(self).pending_transactions@));
        let block = Block::seal(index, previous_hash, timestamp, transactions, producer);
        self.chain.push(block.clone());
        assert(self.chain@.drop_last() =~= old(self).chain@);
        Ok(block)
    }

    /// Produces the next block, if there is anything to put into it: draws the
    /// producer in proportion to stake, stamps the block with the current
    /// time, pays the reward and appends the block.
    ///
    /// Nothing happens where there is no genesis block, no pending
    /// transaction or no stake. Otherwise the block is produced unless the
    /// next index or the rewarded balance cannot be represented.
    pub fn add_block(&mut self) -> (block: Option<Block>)
        ensures
            match block {
                Some(b) => exists|ticket: nat|
                    production_refusal(old(self), ticket) is None && #[trigger] produced(
                        old(self),
                        final(self),
                        b@,
                        ticket,
                    ),
                None => *final(self) == *old(self),
            },
            old(self).chain@.len() == 0 || old(self).pending_transactions@.len() == 0
                || total_stake(old(self).stakes@) == 0 ==> block is None,
            (forall|ticket: nat| ticket < total_stake(old(self).stakes@) ==> production_refusal(
                old(self),
                ticket,
            ) is None) && total_stake(old(self).stakes@) > 0 ==> block is Some,
    {
        if self.chain.len() == 0 || self.pending_transactions.len() == 0 {
            assert(production_refusal(old(self), 0) is Some);
            return None;
        }
        let total = self.total_stake();
        if total == 0 {
            return None;
        }
        let ticket = random_below(total);
        let timestamp = now_millis();
        let outcome = self.produce_block(ticket, timestamp);
        proof {
            if outcome is Ok {
                assert(produced(old(self), final(self), outcome->Ok_0@, ticket as nat));
            } else {
                assert(production_refusal(old(self), ticket as nat) is Some);
            }
        }
        let result = match outcome {
            Ok(block) => Some(block),
            Err(_) => None,
        };
        assert(result is Some ==> result->Some_0@ == outcome->Ok_0@);
        result
    }

    /// Audits the chain block by block and reports the first fault. The
    /// genesis block is not judged.
    pub fn audit_chain(&self) -> (verdict: Result<(), ChainFault>)
        ensures
            is_verdict(links_of(block_views(self.chain@)), verdict),
    {
        assert(chain_links(self.chain@) =~= links_of(block_views(self.chain@)));
        audit(&self.chain)
    }

    /// Whether the audit of the chain finds no fault.
    pub fn is_valid_chain(&self) -> (valid: bool)
        ensures
            valid == is_sound(links_of(block_views(self.chain@))),
    {
        match self.audit_chain() {
            Ok(_) => true,
            Err(fault) => {
                assert(fault_at(links_of(block_views(self.chain@)), fault.index as int) is Some);
                false
            },
        }
    }
}

} // verus!
