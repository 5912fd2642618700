//! Stake: the value a validator has committed.

use crate::error::LedgerError;
use vstd::prelude::*;

verus! {

/// Value committed by `owner`, used as its selection weight.
#[derive(Debug)]
pub struct Stake {
    pub owner: String,
    pub amount: u64,
}

impl Clone for Stake {
    fn clone(&self) -> (copy: Self)
        ensures
            copy == *self,
    {
        Stake { owner: self.owner.clone(), amount: self.amount }
    }
}

impl Stake {
    /// The stake of `amount` that `owner` commits.
    pub fn new(owner: String, amount: u64) -> (stake: Self)
        ensures
            stake.owner == owner,
            stake.amount == amount,
    {
        Self { owner, amount }
    }

    /// Raises the stake by `amount`.
    pub fn add_stake(&mut self, amount: u64)
        requires
            old(self).amount + amount <= u64::MAX,
        ensures
            final(self).amount == old(self).amount + amount,
            final(self).owner == old(self).owner,
    {
        self.amount = self.amount + amount;
    }

    /// Lowers the stake by `amount`, or reports `InsufficientStake` and
    /// leaves it alone where it holds less than that.
    pub fn reduce_stake(&mut self, amount: u64) -> (outcome: Result<(), LedgerError>)
        ensures
            final(self).owner == old(self).owner,
            match outcome {
                Ok(_) => amount <= old(self).amount && final(self).amount == old(self).amount
                    - amount,
                Err(e) => e == LedgerError::InsufficientStake && old(self).amount < amount
                    && final(self).amount == old(self).amount,
            },
    {
        if self.amount < amount {
            return Err(LedgerError::InsufficientStake);
        }
        self.amount = self.amount - amount;
        Ok(())
    }
}

} // verus!
