//! What a chain audit decides, independent of what a block holds.
//!
//! An audit reads three hashes off every block: the hash of the block before
//! that it names, the hash it stores for itself, and the hash that its
//! content gives when it is recomputed. A block is faulty where the stored
//! hash is not the recomputed one, or else where the named previous hash is
//! not the stored hash of its predecessor. The first block is never judged.

use crate::error::{ChainFault, FaultKind};
use vstd::prelude::*;

verus! {

/// The hashes that an audit reads off one block.
pub struct Link {
    /// The hash of the block before, as this block names it.
    pub previous_hash: Seq<char>,
    /// The hash that this block stores for itself.
    pub hash: Seq<char>,
    /// The hash of this block's content, recomputed.
    pub content_hash: Seq<char>,
}

/// What is wrong with the block at position `i`, if anything. A bad hash is
/// reported before a bad linkage.
pub open spec fn fault_at(links: Seq<Link>, i: int) -> Option<FaultKind>
    recommends
        1 <= i < links.len(),
{
    if links[i].hash != links[i].content_hash {
        Some(FaultKind::BadHash)
    } else if links[i].previous_hash != links[i - 1].hash {
        Some(FaultKind::BadLinkage)
    } else {
        None
    }
}

/// Whether no block after the first is faulty.
pub open spec fn is_sound(links: Seq<Link>) -> bool {
    forall|i: int| 1 <= i < links.len() ==> fault_at(links, i) is None
}

/// Whether `fault` names the first faulty block and what is wrong with it.
pub open spec fn is_first_fault(links: Seq<Link>, fault: ChainFault) -> bool {
    &&& 1 <= fault.index < links.len()
    &&& fault_at(links, fault.index as int) == Some(fault.kind)
    &&& forall|j: int| 1 <= j < fault.index ==> fault_at(links, j) is None
}

/// Whether `verdict` is what an audit of `links` reports.
pub open spec fn is_verdict(links: Seq<Link>, verdict: Result<(), ChainFault>) -> bool {
    match verdict {
        Ok(_) => is_sound(links),
        Err(fault) => is_first_fault(links, fault),
    }
}

/// Whether the block at position `i` names the stored hash of the block before it.
pub open spec fn linked_at(links: Seq<Link>, i: int) -> bool
    recommends
        1 <= i < links.len(),
{
    links[i].previous_hash == links[i - 1].hash
}

/// Whether every block after the first names the stored hash of the block before it.
pub open spec fn is_linked(links: Seq<Link>) -> bool {
    forall|i: int| 1 <= i < links.len() ==> linked_at(links, i)
}

/// A chain has one verdict only.
pub proof fn lemma_verdict_unique(
    links: Seq<Link>,
    first: Result<(), ChainFault>,
    second: Result<(), ChainFault>,
)
    requires
        is_verdict(links, first),
        is_verdict(links, second),
    ensures
        first == second,
{
    match (first, second) {
        (Err(a), Err(b)) => {
            if a.index < b.index {
                assert(fault_at(links, a.index as int) is None);
            }
            if b.index < a.index {
                assert(fault_at(links, b.index as int) is None);
            }
            assert(a.index == b.index);
            assert(a.kind == b.kind);
            assert(a == b);
        },
        (Ok(_), Err(b)) => {
            assert(fault_at(links, b.index as int) is None);
        },
        (Err(a), Ok(_)) => {
            assert(fault_at(links, a.index as int) is None);
        },
        (Ok(x), Ok(y)) => {
            assert(x == y);
        },
    }
}

/// Tamper-evidence: where a block of a sound chain keeps the hash it stores
/// while its content comes to hash to something else, the audit reports a
/// bad hash, and reports it at that block.
pub proof fn lemma_tampering_is_reported(links: Seq<Link>, i: usize, tampered: Link)
    requires
        is_sound(links),
        1 <= i < links.len(),
        tampered.hash == links[i as int].hash,
        tampered.content_hash != links[i as int].content_hash,
    ensures
        is_first_fault(
            links.update(i as int, tampered),
            ChainFault { index: i, kind: FaultKind::BadHash },
        ),
{
    let after = links.update(i as int, tampered);
    assert(fault_at(links, i as int) is None);
    assert forall|j: int| 1 <= j < i implies fault_at(after, j) is None by {
        assert(fault_at(links, j) is None);
    }
}

/// Resealing shows one block later: where a block of a sound chain is
/// resealed over other content, so that it stores another hash than before,
/// the audit reports a bad linkage at the block that follows it.
pub proof fn lemma_resealing_is_reported(links: Seq<Link>, i: usize, resealed: Link)
    requires
        is_sound(links),
        1 <= i,
        i + 1 < links.len(),
        i + 1 <= usize::MAX,
        resealed.hash == resealed.content_hash,
        resealed.previous_hash == links[i as int].previous_hash,
        resealed.hash != links[i as int].hash,
    ensures
        is_first_fault(
            links.update(i as int, resealed),
            ChainFault { index: (i + 1) as usize, kind: FaultKind::BadLinkage },
        ),
{
    let after = links.update(i as int, resealed);
    assert(fault_at(links, i as int) is None);
    assert(fault_at(links, i + 1) is None);
    assert forall|j: int| 1 <= j < i + 1 implies fault_at(after, j) is None by {
        assert(fault_at(links, j) is None);
    }
}

/// A sound chain is linked.
pub proof fn lemma_sound_is_linked(links: Seq<Link>)
    requires
        is_sound(links),
    ensures
        is_linked(links),
{
    assert forall|i: int| 1 <= i < links.len() implies linked_at(links, i) by {
        assert(fault_at(links, i) is None);
    }
}

/// Appending a block that names the stored hash of the last block keeps a
/// chain linked, and keeps it sound if the new block is sealed.
pub proof fn lemma_append_keeps_linked(links: Seq<Link>, next: Link)
    requires
        links.len() > 0,
        next.previous_hash == links.last().hash,
    ensures
        is_linked(links) ==> is_linked(links.push(next)),
        is_sound(links) && next.hash == next.content_hash ==> is_sound(links.push(next)),
{
    let longer = links.push(next);
    if is_linked(links) {
        assert forall|i: int| 1 <= i < longer.len() implies linked_at(longer, i) by {
            if i < links.len() {
                assert(linked_at(links, i));
            }
        }
    }
    if is_sound(links) && next.hash == next.content_hash {
        assert forall|i: int| 1 <= i < longer.len() implies fault_at(longer, i) is None by {
            if i < links.len() {
                assert(fault_at(links, i) is None);
            }
        }
    }
}

/// A block that an audit can read: it names a previous hash, stores a hash,
/// and can recompute the hash of its content.
pub trait Linked {
    /// The hashes that an audit reads off the block.
    spec fn link(&self) -> Link;

    /// The hash that the block stores for itself.
    fn stored_hash(&self) -> (hash: &String)
        ensures
            hash@ == self.link().hash,
    ;

    /// The hash of the block before, as this block names it.
    fn named_previous_hash(&self) -> (hash: &String)
        ensures
            hash@ == self.link().previous_hash,
    ;

    /// The hash of the block's content, recomputed.
    fn recomputed_hash(&self) -> (hash: String)
        ensures
            hash@ == self.link().content_hash,
    ;
}

/// The hashes that an audit reads off a chain of blocks.
pub open spec fn chain_links<B: Linked>(chain: Seq<B>) -> Seq<Link> {
    chain.map_values(|b: B| b.link())
}

/// Audits a chain block by block and reports the first fault. The first
/// block is not judged.
pub fn audit<B: Linked>(chain: &Vec<B>) -> (verdict: Result<(), ChainFault>)
    ensures
        is_verdict(chain_links(chain@), verdict),
{
    let ghost links = chain_links(chain@);
    let n = chain.len();
    let mut i: usize = 1;
    while i < n
        invariant
            1 <= i,
            n == chain@.len(),
            links == chain_links(chain@),
            forall|j: int| 1 <= j < i ==> fault_at(links, j) is None,
        decreases n - i,
    {
        let current_block = &chain[i];
        let previous_block = &chain[i - 1];
        let recomputed = current_block.recomputed_hash();
        if *current_block.stored_hash() != recomputed {
            return Err(ChainFault { index: i, kind: FaultKind::BadHash });
        }
        if *current_block.named_previous_hash() != *previous_block.stored_hash() {
            return Err(ChainFault { index: i, kind: FaultKind::BadLinkage });
        }
        i = i + 1;
    }
    Ok(())
}

} // verus!
