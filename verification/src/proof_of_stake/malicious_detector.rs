//! Detection of double-signing and the slashing that punishes it.
//!
//! A validator double-signs when it appears as the producer of a block whose
//! index it has produced a block for before, or for which it is already on
//! record. Every such block costs the validator a quarter of its stake and is
//! cut out of the chain.

use super::block::{block_views, Block, BlockView};
use super::blockchain::Blockchain;
use super::stake::Stake;
use super::validator::Validator;
use crate::address_map::Entries;
use crate::error::LedgerError;
use vstd::prelude::*;
use vstd::string::StringExecFns;

verus! {

/// The accounts that slashing touches.
pub struct StakeBook {
    pub validators: Entries<Validator>,
    pub stakes: Entries<Stake>,
    pub balances: Entries<u64>,
}

/// The penalty for one offence: a quarter of the stake, rounded down.
pub open spec fn penalty(stake: u64) -> u64 {
    stake / 4
}

/// The accounts after `address` has been slashed once.
///
/// A validator without stake on record is left alone. Otherwise the stake
/// loses the penalty; the balance loses it too, but stops at zero; and a
/// validator whose stake is zero afterwards leaves the registry and the
/// stake map.
pub open spec fn slashed(book: StakeBook, address: Seq<char>) -> StakeBook {
    match book.stakes.get(address) {
        None => book,
        Some(stake) => {
            let fine = penalty(stake.amount);
            let remaining = (stake.amount - fine) as u64;
            let balances = match book.balances.get(address) {
                Some(balance) => book.balances.put(
                    address,
                    if balance >= fine {
                        (balance - fine) as u64
                    } else {
                        0
                    },
                ),
                None => book.balances,
            };
            if remaining == 0 {
                StakeBook {
                    validators: book.validators.without(address),
                    stakes: book.stakes.without(address),
                    balances,
                }
            } else {
                StakeBook {
                    validators: book.validators,
                    stakes: book.stakes.put(address, Stake { owner: stake.owner, amount: remaining }),
                    balances,
                }
            }
        },
    }
}

/// Slashing takes a quarter: a validator with stake on record keeps its
/// stake less the penalty, and leaves the registry and the stake map where
/// nothing is left. One without stake on record changes nothing.
pub proof fn lemma_slashed_stake(book: StakeBook, address: Seq<char>)
    requires
        book.stakes.wf(),
        book.validators.wf(),
    ensures
        slashed(book, address).stakes.wf(),
        slashed(book, address).validators.wf(),
        match book.stakes.get(address) {
            None => slashed(book, address) == book,
            Some(stake) => if stake.amount - penalty(stake.amount) > 0 {
                &&& slashed(book, address).stakes.get(address) matches Some(left)
                &&& left.amount == stake.amount - penalty(stake.amount)
                &&& slashed(book, address).validators == book.validators
            } else {
                &&& !slashed(book, address).stakes.contains(address)
                &&& !slashed(book, address).validators.contains(address)
            },
        },
        forall|other: Seq<char>|
            other != address ==> slashed(book, address).stakes.get(other) == book.stakes.get(other),
{
    match book.stakes.get(address) {
        None => {},
        Some(stake) => {
            let remaining = (stake.amount - penalty(stake.amount)) as u64;
            book.stakes.lemma_put(address, Stake { owner: stake.owner, amount: remaining });
            book.stakes.lemma_without(address);
            book.validators.lemma_without(address);
        },
    }
}

/// The accounts after every address in `offenders` has been slashed, in order.
pub open spec fn slashed_all(book: StakeBook, offenders: Seq<Seq<char>>) -> StakeBook
    decreases offenders.len(),
{
    if offenders.len() == 0 {
        book
    } else {
        slashed(slashed_all(book, offenders.drop_last()), offenders.last())
    }
}

/// Whether two blocks claim the same index for the same validator.
pub open spec fn same_slot(a: BlockView, b: BlockView) -> bool {
    a.index == b.index && a.validator == b.validator
}

/// The offences on record: pairs of block index and validator address.
pub open spec fn offence_views(offences: Seq<(u64, String)>) -> Seq<(u64, Seq<char>)> {
    offences.map_values(|o: (u64, String)| (o.0, o.1@))
}

/// Whether the block at position `i` is a double-signing: its index and
/// validator are on record in `known`, or an earlier block of the chain
/// carries the same index and validator.
pub open spec fn is_double_signed(
    chain: Seq<BlockView>,
    known: Seq<(u64, Seq<char>)>,
    i: int,
) -> bool {
    ||| known.contains((chain[i].index, chain[i].validator))
    ||| exists|j: int| 0 <= j < i && #[trigger] same_slot(chain[j], chain[i])
}

/// For every position of the chain, whether the block there is to stay.
pub open spec fn honest_marks(chain: Seq<BlockView>, known: Seq<(u64, Seq<char>)>) -> Seq<bool> {
    Seq::new(chain.len(), |i: int| !is_double_signed(chain, known, i))
}

/// For every position of the chain, whether the block there is a double-signing.
pub open spec fn offence_marks(chain: Seq<BlockView>, known: Seq<(u64, Seq<char>)>) -> Seq<bool> {
    Seq::new(chain.len(), |i: int| is_double_signed(chain, known, i))
}

/// The index and validator of every block, position by position.
pub open spec fn slots(chain: Seq<BlockView>) -> Seq<(u64, Seq<char>)> {
    chain.map_values(|b: BlockView| (b.index, b.validator))
}

/// The elements of `items` whose mark is set, in their order.
pub open spec fn marked<T>(items: Seq<T>, marks: Seq<bool>) -> Seq<T>
    recommends
        items.len() == marks.len(),
    decreases items.len(),
{
    if items.len() == 0 {
        Seq::empty()
    } else if marks.last() {
        marked(items.drop_last(), marks.drop_last()).push(items.last())
    } else {
        marked(items.drop_last(), marks.drop_last())
    }
}

/// The position in `items` of the element at position `a` of `marked(items, marks)`.
pub open spec fn origin<T>(items: Seq<T>, marks: Seq<bool>, a: int) -> int
    recommends
        items.len() == marks.len(),
        0 <= a < marked(items, marks).len(),
    decreases items.len(),
{
    if items.len() == 0 {
        0
    } else if marks.last() && a == marked(items.drop_last(), marks.drop_last()).len() {
        items.len() - 1
    } else {
        origin(items.drop_last(), marks.drop_last(), a)
    }
}

/// Each element of `marked(items, marks)` is a marked element of `items`, and
/// the elements keep their order.
pub proof fn lemma_origin<T>(items: Seq<T>, marks: Seq<bool>, a: int, b: int)
    requires
        items.len() == marks.len(),
        0 <= a <= b < marked(items, marks).len(),
    ensures
        0 <= origin(items, marks, a) <= origin(items, marks, b) < items.len(),
        a < b ==> origin(items, marks, a) < origin(items, marks, b),
        marks[origin(items, marks, a)],
        items[origin(items, marks, a)] == marked(items, marks)[a],
        marks[origin(items, marks, b)],
        items[origin(items, marks, b)] == marked(items, marks)[b],
    decreases items.len(),
{
    if items.len() > 0 {
        let rest = marked(items.drop_last(), marks.drop_last());
        if marks.last() {
            if b == rest.len() {
                if a < b {
                    lemma_origin(items.drop_last(), marks.drop_last(), a, a);
                }
            } else {
                lemma_origin(items.drop_last(), marks.drop_last(), a, b);
            }
        } else {
            lemma_origin(items.drop_last(), marks.drop_last(), a, b);
        }
    }
}

/// `marked` takes the first element if it is marked and goes on with the rest.
pub proof fn lemma_marked_first<T>(items: Seq<T>, marks: Seq<bool>)
    requires
        items.len() == marks.len(),
        items.len() > 0,
    ensures
        marked(items, marks) == (if marks[0] {
            seq![items[0]]
        } else {
            Seq::<T>::empty()
        }) + marked(items.drop_first(), marks.drop_first()),
    decreases items.len(),
{
    let head = if marks[0] {
        seq![items[0]]
    } else {
        Seq::<T>::empty()
    };
    if items.len() == 1 {
        assert(marked(items.drop_last(), marks.drop_last()) =~= Seq::<T>::empty());
        assert(marked(items.drop_first(), marks.drop_first()) =~= Seq::<T>::empty());
        assert(marked(items, marks) =~= head + marked(items.drop_first(), marks.drop_first()));
    } else {
        lemma_marked_first(items.drop_last(), marks.drop_last());
        assert(items.drop_last().drop_first() =~= items.drop_first().drop_last());
        assert(marks.drop_last().drop_first() =~= marks.drop_first().drop_last());
        assert(marked(items, marks) =~= head + marked(items.drop_first(), marks.drop_first()));
    }
}

/// Where every mark is set, nothing is left out.
pub proof fn lemma_marked_all<T>(items: Seq<T>, marks: Seq<bool>)
    requires
        items.len() == marks.len(),
        forall|i: int| 0 <= i < marks.len() ==> marks[i],
    ensures
        marked(items, marks) == items,
    decreases items.len(),
{
    if items.len() > 0 {
        lemma_marked_all(items.drop_last(), marks.drop_last());
        assert(items.drop_last().push(items.last()) =~= items);
    } else {
        assert(marked(items, marks) =~= items);
    }
}

/// Where no mark is set, nothing is taken.
pub proof fn lemma_marked_none<T>(items: Seq<T>, marks: Seq<bool>)
    requires
        items.len() == marks.len(),
        forall|i: int| 0 <= i < marks.len() ==> !marks[i],
    ensures
        marked(items, marks) == Seq::<T>::empty(),
    decreases items.len(),
{
    if items.len() > 0 {
        lemma_marked_none(items.drop_last(), marks.drop_last());
    }
}

/// A double-signing at the end of an honest chain: where the last block is
/// the only double-signing, exactly that block is cut out, it is the one
/// offence found, and its validator is slashed once.
pub proof fn lemma_offence_at_the_end(
    blocks: Seq<Block>,
    known: Seq<(u64, Seq<char>)>,
    book: StakeBook,
)
    requires
        blocks.len() > 0,
        forall|i: int|
            0 <= i < blocks.len() - 1 ==> !is_double_signed(block_views(blocks), known, i),
        is_double_signed(block_views(blocks), known, blocks.len() - 1),
    ensures
        marked(blocks, honest_marks(block_views(blocks), known)) == blocks.drop_last(),
        marked(slots(block_views(blocks)), offence_marks(block_views(blocks), known)) == seq![
            (blocks.last()@.index, blocks.last()@.validator),
        ],
        slashed_all(
            book,
            offenders(
                marked(slots(block_views(blocks)), offence_marks(block_views(blocks), known)),
            ),
        ) == slashed(book, blocks.last()@.validator),
{
    let views = block_views(blocks);
    let keep = honest_marks(views, known);
    let bad = offence_marks(views, known);
    lemma_marked_all(blocks.drop_last(), keep.drop_last());
    lemma_marked_none(slots(views).drop_last(), bad.drop_last());
    let found = marked(slots(views), bad);
    assert(found =~= seq![(blocks.last()@.index, blocks.last()@.validator)]);
    let named = offenders(found);
    assert(named =~= seq![blocks.last()@.validator]);
    assert(named.drop_last() =~= Seq::<Seq<char>>::empty());
    assert(slashed_all(book, named.drop_last()) == book);
}

/// Marking commutes with taking the views of blocks.
pub proof fn lemma_marked_views(blocks: Seq<Block>, marks: Seq<bool>)
    requires
        blocks.len() == marks.len(),
    ensures
        block_views(marked(blocks, marks)) == marked(block_views(blocks), marks),
    decreases blocks.len(),
{
    if blocks.len() == 0 {
        assert(block_views(marked(blocks, marks)) =~= marked(block_views(blocks), marks));
    } else {
        lemma_marked_views(blocks.drop_last(), marks.drop_last());
        assert(block_views(blocks).drop_last() =~= block_views(blocks.drop_last()));
        assert(block_views(marked(blocks, marks)) =~= marked(block_views(blocks), marks));
    }
}

/// The validators named by a sequence of offences.
pub open spec fn offenders(offences: Seq<(u64, Seq<char>)>) -> Seq<Seq<char>> {
    offences.map_values(|o: (u64, Seq<char>)| o.1)
}

/// Once the double-signed blocks are cut out, no validator appears twice for
/// one index in what is left, and no block of it is on record as an offence.
pub proof fn lemma_survivors_are_honest(chain: Seq<BlockView>, known: Seq<(u64, Seq<char>)>)
    ensures
        forall|i: int|
            0 <= i < marked(chain, honest_marks(chain, known)).len() ==> !is_double_signed(
                marked(chain, honest_marks(chain, known)),
                known,
                i,
            ),
{
    let marks = honest_marks(chain, known);
    let left = marked(chain, marks);
    assert forall|i: int| 0 <= i < left.len() implies !is_double_signed(left, known, i) by {
        lemma_origin(chain, marks, i, i);
        let q = origin(chain, marks, i);
        assert(!is_double_signed(chain, known, q));
        assert forall|j: int| 0 <= j < i implies !same_slot(left[j], left[i]) by {
            lemma_origin(chain, marks, j, i);
            let p = origin(chain, marks, j);
            assert(!same_slot(chain[p], chain[q]));
        }
    }
}

impl Blockchain {
    /// The accounts that slashing touches, as they stand.
    pub open spec fn book(&self) -> StakeBook {
        StakeBook { validators: self.validators@, stakes: self.stakes@, balances: self.balances@ }
    }

    /// The offences that are on record before any chain is looked at.
    pub fn get_malicious_validators() -> (known: Vec<(u64, String)>)
        ensures
            offence_views(known@) == seq![(2u64, "Validator2"@)],
    {
        let mut known: Vec<(u64, String)> = Vec::new();
        known.push((2, String::from_str("Validator2")));
        assert(offence_views(known@) =~= seq![(2u64, "Validator2"@)]);
        known
    }

    /// Takes `validator_address` out of the registry and out of the stake map.
    pub fn remove_validator(&mut self, validator_address: &String)
        ensures
            final(self).validators@ == old(self).validators@.without(validator_address@),
            final(self).stakes@ == old(self).stakes@.without(validator_address@),
            final(self).balances == old(self).balances,
            final(self).chain == old(self).chain,
            final(self).pending_transactions == old(self).pending_transactions,
            final(self).reward == old(self).reward,
    {
        self.validators.remove(validator_address);
        self.stakes.remove(validator_address);
    }

    /// Slashes a validator once. One without stake on record is reported as
    /// not found, and nothing changes.
    pub fn slash_validator(&mut self, validator_address: &String) -> (outcome: Result<
        (),
        LedgerError,
    >)
        ensures
            match outcome {
                Ok(_) => old(self).stakes@.contains(validator_address@),
                Err(reason) => reason == LedgerError::ValidatorNotFound && !old(
                    self,
                ).stakes@.contains(validator_address@),
            },
            final(self).book() == slashed(old(self).book(), validator_address@),
            final(self).chain == old(self).chain,
            final(self).pending_transactions == old(self).pending_transactions,
            final(self).reward == old(self).reward,
    {
        let (amount, owner) = match self.stakes.get(validator_address) {
            Some(stake) => (stake.amount, stake.owner.clone()),
            None => {
                return Err(LedgerError::ValidatorNotFound);
            },
        };
        let fine = amount / 4;
        let remaining = amount - fine;
        let balance = match self.balances.get(validator_address) {
            Some(balance) => Some(*balance),
            None => None,
        };
        match balance {
            Some(balance) => {
                let lowered = if balance >= fine {
                    balance - fine
                } else {
                    0
                };
                self.balances.insert(validator_address.clone(), lowered);
            },
            None => {},
        }
        if remaining == 0 {
            self.remove_validator(validator_address);
        } else {
            self.stakes.insert(validator_address.clone(), Stake { owner, amount: remaining });
        }
        Ok(())
    }

    /// Whether the block at `position` is a double-signing.
    fn is_offence(&self, position: usize, known: &Vec<(u64, String)>) -> (offence: bool)
        requires
            position < self.chain@.len(),
        ensures
            offence == is_double_signed(
                block_views(self.chain@),
                offence_views(known@),
                position as int,
            ),
    {
        let ghost views = block_views(self.chain@);
        let ghost on_record = offence_views(known@);
        let block = &self.chain[position];
        let mut k: usize = 0;
        while k < known.len()
            invariant
                k <= known@.len(),
                position < self.chain@.len(),
                *block == self.chain@[position as int],
                views == block_views(self.chain@),
                on_record == offence_views(known@),
                forall|m: int| 0 <= m < k ==> on_record[m] != (block.index, block.validator@),
            decreases known@.len() - k,
        {
            if known[k].0 == block.index && known[k].1 == block.validator {
                assert(on_record[k as int] == (views[position as int].index, views[position as int].validator));
                return true;
            }
            k = k + 1;
        }
        let mut j: usize = 0;
        while j < position
            invariant
                j <= position < self.chain@.len(),
                views == block_views(self.chain@),
                *block == self.chain@[position as int],
                forall|m: int| 0 <= m < j ==> !same_slot(views[m], views[position as int]),
            decreases position - j,
        {
            if self.chain[j].index == block.index && self.chain[j].validator == block.validator {
                assert(same_slot(views[j as int], views[position as int]));
                return true;
            }
            j = j + 1;
        }
        false
    }

    /// Audits the chain for double-signing against the offences in `known`,
    /// slashes the validator of every offending block, once per block and in
    /// chain order, and cuts those blocks out of the chain, last one first.
    /// Returns the index and validator of each offending block.
    ///
    /// The blocks that stay keep their order, and none of them is a
    /// double-signing any more.
    pub fn detect_and_slash_known(&mut self, known: &Vec<(u64, String)>) -> (found: Vec<
        (u64, String),
    >)
        ensures
            offence_views(found@) == marked(
                slots(block_views(old(self).chain@)),
                offence_marks(block_views(old(self).chain@), offence_views(known@)),
            ),
            final(self).chain@ == marked(
                old(self).chain@,
                honest_marks(block_views(old(self).chain@), offence_views(known@)),
            ),
            final(self).book() == slashed_all(old(self).book(), offenders(offence_views(found@))),
            forall|i: int|
                0 <= i < final(self).chain@.len() ==> !is_double_signed(
                    block_views(final(self).chain@),
                    offence_views(known@),
                    i,
                ),
            final(self).pending_transactions == old(self).pending_transactions,
            final(self).reward == old(self).reward,
    {
        let ghost chain0 = self.chain@;
        let ghost views = block_views(self.chain@);
        let ghost on_record = offence_views(known@);
        let ghost bad = offence_marks(views, on_record);
        let ghost keep = honest_marks(views, on_record);
        let ghost book0 = self.book();
        let n = self.chain.len();

        let mut flags: Vec<bool> = Vec::new();
        let mut found: Vec<(u64, String)> = Vec::new();
        let mut i: usize = 0;
        while i < n
            invariant
                i <= n,
                n == self.chain@.len(),
                self.chain@ == chain0,
                views == block_views(chain0),
                on_record == offence_views(known@),
                bad == offence_marks(views, on_record),
                flags@ == bad.take(i as int),
                offence_views(found@) == marked(slots(views).take(i as int), bad.take(i as int)),
            decreases n - i,
        {
            let offence = self.is_offence(i, known);
            proof {
                assert(bad.take(i + 1).drop_last() =~= bad.take(i as int));
                assert(slots(views).take(i + 1).drop_last() =~= slots(views).take(i as int));
            }
            if offence {
                found.push((self.chain[i].index, self.chain[i].validator.clone()));
                assert(offence_views(found@) =~= marked(
                    slots(views).take(i + 1),
                    bad.take(i + 1),
                ));
            }
            flags.push(offence);
            assert(flags@ =~= bad.take(i + 1));
            i = i + 1;
        }
        proof {
            assert(bad.take(n as int) =~= bad);
            assert(slots(views).take(n as int) =~= slots(views));
        }

        let ghost named = offenders(offence_views(found@));
        let mut k: usize = 0;
        while k < found.len()
            invariant
                k <= found@.len(),
                named == offenders(offence_views(found@)),
                self.chain@ == chain0,
                self.book() == slashed_all(book0, named.take(k as int)),
                self.pending_transactions == old(self).pending_transactions,
                self.reward == old(self).reward,
            decreases found@.len() - k,
        {
            proof {
                assert(named.take(k + 1).drop_last() =~= named.take(k as int));
            }
            let _ = self.slash_validator(&found[k].1);
            k = k + 1;
        }
        proof {
            assert(named.take(found@.len() as int) =~= named);
        }

        let mut p: usize = n;
        while p > 0
            invariant
                p <= n,
                n == chain0.len(),
                n == keep.len(),
                flags@ == bad,
                bad == offence_marks(views, on_record),
                keep == honest_marks(views, on_record),
                views == block_views(chain0),
                self.chain@ == chain0.take(p as int) + marked(
                    chain0.skip(p as int),
                    keep.skip(p as int),
                ),
                self.book() == slashed_all(book0, named),
                self.pending_transactions == old(self).pending_transactions,
                self.reward == old(self).reward,
            decreases p,
        {
            p = p - 1;
            proof {
                lemma_marked_first(chain0.skip(p as int), keep.skip(p as int));
                assert(chain0.skip(p as int).drop_first() =~= chain0.skip(p + 1));
                assert(keep.skip(p as int).drop_first() =~= keep.skip(p + 1));
                assert(chain0.take(p + 1) =~= chain0.take(p as int).push(chain0[p as int]));
            }
            if flags[p] {
                self.chain.remove(p);
                assert(self.chain@ =~= chain0.take(p as int) + marked(
                    chain0.skip(p as int),
                    keep.skip(p as int),
                ));
            } else {
                assert(self.chain@ =~= chain0.take(p as int) + marked(
                    chain0.skip(p as int),
                    keep.skip(p as int),
                ));
            }
        }
        proof {
            assert(chain0.skip(0) =~= chain0);
            assert(keep.skip(0) =~= keep);
            assert(self.chain@ =~= marked(chain0, keep));
            lemma_marked_views(chain0, keep);
            lemma_survivors_are_honest(views, on_record);
        }
        found
    }

    /// Audits the chain for double-signing against the offences on record,
    /// slashes the offenders and cuts their blocks out of the chain.
    pub fn detect_and_slash(&mut self)
        ensures
            final(self).chain@ == marked(
                old(self).chain@,
                honest_marks(block_views(old(self).chain@), seq![(2u64, "Validator2"@)]),
            ),
            final(self).book() == slashed_all(
                old(self).book(),
                offenders(
                    marked(
                        slots(block_views(old(self).chain@)),
                        offence_marks(block_views(old(self).chain@), seq![(2u64, "Validator2"@)]),
                    ),
                ),
            ),
            forall|i: int|
                0 <= i < final(self).chain@.len() ==> !is_double_signed(
                    block_views(final(self).chain@),
                    seq![(2u64, "Validator2"@)],
                    i,
                ),
            final(self).pending_transactions == old(self).pending_transactions,
            final(self).reward == old(self).reward,
    {
        let known = Self::get_malicious_validators();
        let _ = self.detect_and_slash_known(&known);
    }
}

} // verus!
