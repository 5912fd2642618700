//! Transfers of value between two addresses.

use crate::json::{json_quote, json_string};
use crate::text::{decimal_string, decimal_text};
use vstd::prelude::*;
use vstd::string::StringExecFns;

verus! {

/// A transfer of `amount` from `sender` to `recipient`.
#[derive(Debug)]
pub struct Transaction {
    pub sender: String,
    pub recipient: String,
    pub amount: u64,
}

/// The mathematical content of a [`Transaction`].
pub struct TransactionView {
    pub sender: Seq<char>,
    pub recipient: Seq<char>,
    pub amount: u64,
}

impl View for Transaction {
    type V = TransactionView;

    open spec fn view(&self) -> TransactionView {
        TransactionView { sender: self.sender@, recipient: self.recipient@, amount: self.amount }
    }
}

impl Clone for Transaction {
    fn clone(&self) -> (copy: Self)
        ensures
            copy@ == self@,
    {
        Transaction {
            sender: self.sender.clone(),
            recipient: self.recipient.clone(),
            amount: self.amount,
        }
    }
}

/// The contents of a vector of transactions.
pub open spec fn transaction_views(transactions: Seq<Transaction>) -> Seq<TransactionView> {
    transactions.map_values(|t: Transaction| t@)
}

/// The JSON object that stands for one transaction in a block's canonical text.
pub open spec fn transaction_json(tx: TransactionView) -> Seq<char> {
    "{\"sender\":"@ + json_string(tx.sender) + ",\"recipient\":"@ + json_string(tx.recipient)
        + ",\"amount\":"@ + decimal_text(tx.amount as nat) + "}"@
}

/// The JSON objects of `txs`, separated by commas.
pub open spec fn transaction_json_items(txs: Seq<TransactionView>) -> Seq<char>
    decreases txs.len(),
{
    if txs.len() == 0 {
        Seq::empty()
    } else if txs.len() == 1 {
        transaction_json(txs[0])
    } else {
        transaction_json_items(txs.drop_last()) + ","@ + transaction_json(txs.last())
    }
}

/// The JSON array that stands for a block's transactions in its canonical text.
pub open spec fn transactions_json(txs: Seq<TransactionView>) -> Seq<char> {
    "["@ + transaction_json_items(txs) + "]"@
}

impl Transaction {
    /// The transfer of `amount` from `sender` to `recipient`.
    pub fn new(sender: String, recipient: String, amount: u64) -> (tx: Self)
        ensures
            tx@ == (TransactionView { sender: sender@, recipient: recipient@, amount }),
    {
        Self { sender, recipient, amount }
    }

    /// Appends this transaction's JSON object to `out`.
    fn write_json(&self, out: &mut String)
        ensures
            final(out)@ == old(out)@ + transaction_json(self@),
    {
        out.append("{\"sender\":");
        let sender = json_quote(self.sender.as_str());
        out.append(sender.as_str());
        out.append(",\"recipient\":");
        let recipient = json_quote(self.recipient.as_str());
        out.append(recipient.as_str());
        out.append(",\"amount\":");
        let amount = decimal_string(self.amount);
        out.append(amount.as_str());
        out.append("}");
        assert(out@ =~= old(out)@ + transaction_json(self@));
    }
}

/// Writes the transactions as a compact JSON array of objects with the fields
/// `sender`, `recipient` and `amount`, in that order.
pub fn transactions_to_json(transactions: &Vec<Transaction>) -> (json: String)
    ensures
        json@ == transactions_json(transaction_views(transactions@)),
{
    let ghost views = transaction_views(transactions@);
    let mut out = String::from_str("[");
    let n = transactions.len();
    let mut i: usize = 0;
    while i < n
        invariant
            n == transactions@.len(),
            i <= n,
            views == transaction_views(transactions@),
            out@ == "["@ + transaction_json_items(views.take(i as int)),
        decreases n - i,
    {
        if i > 0 {
            out.append(",");
        }
        transactions[i].write_json(&mut out);
        proof {
            let next = views.take(i + 1);
            assert(next.drop_last() =~= views.take(i as int));
            assert(next.last() == transactions@[i as int]@);
            if i == 0 {
                assert(transaction_json_items(views.take(0)) =~= Seq::<char>::empty());
                assert(out@ =~= "["@ + transaction_json_items(next));
            } else {
                assert(out@ =~= "["@ + transaction_json_items(next));
            }
        }
        i = i + 1;
    }
    assert(views.take(n as int) =~= views);
    out.append("]");
    out
}

} // verus!
