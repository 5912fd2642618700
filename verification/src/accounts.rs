//! Balances and the two ways in which they change: a transfer between two
//! addresses, which creates and destroys nothing, and a credit without a
//! debit, which is how rewards bring value into being.

use crate::address_map::{AddressMap, Entries};
use crate::error::LedgerError;
use crate::totals::{lemma_sum_bounds, lemma_sum_push, lemma_sum_update, sum};
use vstd::prelude::*;

verus! {

/// The balance that `address` has in `balances`, zero where it has none.
pub open spec fn balance_or_zero(balances: Entries<u64>, address: Seq<char>) -> u64 {
    match balances.get(address) {
        Some(balance) => balance,
        None => 0,
    }
}

/// The sum of all balances.
pub open spec fn total_balance(balances: Entries<u64>) -> nat {
    sum(balances.values)
}

/// What a transfer of `amount` from `sender` to `recipient` does to
/// `balances`: the balances after it, or the reason for which it is refused.
///
/// A transfer of nothing is refused. The sender must have a balance on
/// record, and it must cover the amount. The sender is debited before the
/// recipient is credited, so that a transfer to oneself changes nothing; a
/// recipient without a balance starts from zero.
pub open spec fn admission(
    balances: Entries<u64>,
    sender: Seq<char>,
    recipient: Seq<char>,
    amount: u64,
) -> Result<Entries<u64>, LedgerError> {
    if amount == 0 {
        Err(LedgerError::InvalidAmount)
    } else {
        match balances.get(sender) {
            None => Err(LedgerError::UnknownSender),
            Some(available) => if available < amount {
                Err(LedgerError::InsufficientFunds)
            } else {
                crediting(balances.put(sender, (available - amount) as u64), recipient, amount)
            },
        }
    }
}

/// What a credit of `amount` to `recipient` does to `balances`, with no
/// debit anywhere: the balances after it, or `BalanceOverflow` where the
/// recipient's balance cannot hold the amount.
pub open spec fn crediting(balances: Entries<u64>, recipient: Seq<char>, amount: u64) -> Result<
    Entries<u64>,
    LedgerError,
> {
    if balance_or_zero(balances, recipient) + amount > u64::MAX {
        Err(LedgerError::BalanceOverflow)
    } else {
        Ok(balances.put(recipient, (balance_or_zero(balances, recipient) + amount) as u64))
    }
}

/// Binding a key in a well-formed map changes the total by the difference
/// between the new value and the old one, zero where there was none.
pub proof fn lemma_total_after_put(balances: Entries<u64>, key: Seq<char>, value: u64)
    requires
        balances.wf(),
    ensures
        total_balance(balances.put(key, value)) == total_balance(balances) - balance_or_zero(
            balances,
            key,
        ) + value,
{
    if balances.contains(key) {
        lemma_sum_update(balances.values, balances.position(key), value);
    } else {
        lemma_sum_push(balances.values, value);
    }
}

/// A credit raises the total by its amount and touches no other balance.
pub proof fn lemma_crediting(balances: Entries<u64>, recipient: Seq<char>, amount: u64)
    requires
        balances.wf(),
        crediting(balances, recipient, amount) is Ok,
    ensures
        crediting(balances, recipient, amount).unwrap().wf(),
        total_balance(crediting(balances, recipient, amount).unwrap()) == total_balance(balances)
            + amount,
        crediting(balances, recipient, amount).unwrap().get(recipient) == Some(
            (balance_or_zero(balances, recipient) + amount) as u64,
        ),
        forall|other: Seq<char>|
            other != recipient ==> crediting(balances, recipient, amount).unwrap().get(other)
                == balances.get(other),
{
    let raised = (balance_or_zero(balances, recipient) + amount) as u64;
    balances.lemma_put(recipient, raised);
    lemma_total_after_put(balances, recipient, raised);
}

/// Conservation: an accepted transfer creates and destroys no value. The
/// balances sum to what they summed to before.
pub proof fn lemma_admission_conserves(
    balances: Entries<u64>,
    sender: Seq<char>,
    recipient: Seq<char>,
    amount: u64,
)
    requires
        balances.wf(),
        admission(balances, sender, recipient, amount) is Ok,
    ensures
        admission(balances, sender, recipient, amount).unwrap().wf(),
        total_balance(admission(balances, sender, recipient, amount).unwrap()) == total_balance(
            balances,
        ),
{
    let available = balances.get(sender).unwrap();
    let lowered = (available - amount) as u64;
    balances.lemma_put(sender, lowered);
    lemma_total_after_put(balances, sender, lowered);
    lemma_crediting(balances.put(sender, lowered), recipient, amount);
}

/// A transfer that the sender can afford, to somebody else whose balance can
/// hold it, is accepted: the sender has the amount less, the recipient has
/// it more, and every other balance is what it was.
pub proof fn lemma_affordable_transfer(
    balances: Entries<u64>,
    sender: Seq<char>,
    recipient: Seq<char>,
    amount: u64,
)
    requires
        balances.wf(),
        sender != recipient,
        amount > 0,
        balances.get(sender) matches Some(available) && amount <= available,
        balance_or_zero(balances, recipient) + amount <= u64::MAX,
    ensures
        admission(balances, sender, recipient, amount) matches Ok(after) && {
            &&& after.get(sender) == Some((balances.get(sender).unwrap() - amount) as u64)
            &&& after.get(recipient) == Some((balance_or_zero(balances, recipient) + amount) as u64)
            &&& forall|other: Seq<char>|
                other != sender && other != recipient ==> after.get(other) == balances.get(other)
            &&& total_balance(after) == total_balance(balances)
        },
{
    let available = balances.get(sender).unwrap();
    let lowered = (available - amount) as u64;
    let debited = balances.put(sender, lowered);
    balances.lemma_put(sender, lowered);
    lemma_crediting(debited, recipient, amount);
    lemma_admission_conserves(balances, sender, recipient, amount);
}

/// An overdrawn transfer is refused: where the amount is above the sender's
/// balance, the transfer is refused for insufficient funds.
pub proof fn lemma_overdrawn_transfer(
    balances: Entries<u64>,
    sender: Seq<char>,
    recipient: Seq<char>,
    amount: u64,
)
    requires
        balances.get(sender) matches Some(available) && amount > available,
    ensures
        admission(balances, sender, recipient, amount) == Err::<Entries<u64>, LedgerError>(
            LedgerError::InsufficientFunds,
        ),
{
}

/// The balances once `address` has an account: as they are where it has a
/// balance on record, and with `opening` as its balance where it has none.
pub open spec fn opened(balances: Entries<u64>, address: Seq<char>, opening: u64) -> Entries<u64> {
    if balances.contains(address) {
        balances
    } else {
        balances.put(address, opening)
    }
}

/// Within a total that fits 64 bits, no transfer that the sender can afford
/// overflows the balance of another recipient.
pub proof fn lemma_transfer_fits_within_total(
    balances: Entries<u64>,
    sender: Seq<char>,
    recipient: Seq<char>,
    amount: u64,
)
    requires
        balances.wf(),
        sender != recipient,
        balances.get(sender) matches Some(available) && amount <= available,
        total_balance(balances) <= u64::MAX,
    ensures
        balance_or_zero(balances, recipient) + amount <= u64::MAX,
{
    if balances.contains(recipient) {
        let p = balances.position(sender);
        let q = balances.position(recipient);
        let without = balances.values.update(p, 0);
        lemma_sum_update(balances.values, p, 0);
        lemma_sum_bounds(without, q);
        assert(without[q] == balances.values[q]);
    }
}

/// Gives `address` the balance `opening` unless it has a balance on record.
pub fn open_account(balances: &mut AddressMap<u64>, address: &String, opening: u64)
    ensures
        final(balances)@ == opened(old(balances)@, address@, opening),
{
    if !balances.contains_key(address) {
        balances.insert(address.clone(), opening);
    }
}

/// Credits `amount` to `recipient` without any debit, or refuses and leaves
/// the balances as they were.
pub fn credit(balances: &mut AddressMap<u64>, recipient: &String, amount: u64) -> (outcome: Result<
    (),
    LedgerError,
>)
    ensures
        match crediting(old(balances)@, recipient@, amount) {
            Ok(after) => outcome is Ok && final(balances)@ == after,
            Err(reason) => outcome == Err::<(), LedgerError>(reason) && *final(balances) == *old(
                balances,
            ),
        },
{
    let held = match balances.get(recipient) {
        Some(balance) => *balance,
        None => 0,
    };
    if held > u64::MAX - amount {
        return Err(LedgerError::BalanceOverflow);
    }
    balances.insert(recipient.clone(), held + amount);
    Ok(())
}

/// Moves `amount` from `sender` to `recipient`, or refuses and leaves the
/// balances as they were.
pub fn transfer(
    balances: &mut AddressMap<u64>,
    sender: &String,
    recipient: &String,
    amount: u64,
) -> (outcome: Result<(), LedgerError>)
    ensures
        match admission(old(balances)@, sender@, recipient@, amount) {
            Ok(after) => outcome is Ok && final(balances)@ == after && total_balance(after)
                == total_balance(old(balances)@),
            Err(reason) => outcome == Err::<(), LedgerError>(reason) && *final(balances) == *old(
                balances,
            ),
        },
{
    proof {
        use_type_invariant(&*balances);
    }
    if amount == 0 {
        return Err(LedgerError::InvalidAmount);
    }
    let available = match balances.get(sender) {
        Some(balance) => *balance,
        None => {
            return Err(LedgerError::UnknownSender);
        },
    };
    if available < amount {
        return Err(LedgerError::InsufficientFunds);
    }
    let held = if *recipient == *sender {
        available - amount
    } else {
        match balances.get(recipient) {
            Some(balance) => *balance,
            None => 0,
        }
    };
    proof {
        old(balances)@.lemma_put(sender@, (available - amount) as u64);
    }
    if held > u64::MAX - amount {
        return Err(LedgerError::BalanceOverflow);
    }
    proof {
        lemma_admission_conserves(old(balances)@, sender@, recipient@, amount);
    }
    balances.insert(sender.clone(), available - amount);
    balances.insert(recipient.clone(), held + amount);
    Ok(())
}

} // verus!
