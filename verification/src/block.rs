//! Blocks and hash-linked chains.

use vstd::prelude::*;
use crate::hashing::{compute_digest, digest_of};

verus! {

/// One ledger entry: an immutable record hash-linked to its predecessor.
/// The digest binds every other field together; the first block of a
/// chain carries an empty `previous_digest`.
pub struct Block {
    pub id: u64,
    pub timestamp: u128,
    pub data: String,
    pub validator_id: String,
    pub previous_digest: String,
    pub digest: String,
}

impl Block {
    /// Builds a block whose digest is the content digest of all its
    /// other fields; repeated calls on identical fields therefore yield
    /// identical digests.
    pub fn new(
        id: u64,
        data: String,
        validator_id: String,
        timestamp: u128,
        previous_digest: String,
    ) -> (b: Block)
        ensures
            b.id == id,
            b.timestamp == timestamp,
            b.data == data,
            b.validator_id == validator_id,
            b.previous_digest == previous_digest,
            b.digest@ == digest_of(id, data@, validator_id@, timestamp, previous_digest@),
    {
        let digest = compute_digest(
            id,
            data.as_str(),
            validator_id.as_str(),
            timestamp,
            previous_digest.as_str(),
        );
        Block { id, timestamp, data, validator_id, previous_digest, digest }
    }

    /// A field-for-field copy of the block.
    pub fn duplicate(&self) -> (b: Block)
        ensures
            b == *self,
    {
        Block {
            id: self.id,
            timestamp: self.timestamp,
            data: self.data.clone(),
            validator_id: self.validator_id.clone(),
            previous_digest: self.previous_digest.clone(),
            digest: self.digest.clone(),
        }
    }
}

/// Chain linkage: every block names its predecessor's digest, and the
/// first block names the empty string.
pub open spec fn chain_linked(chain: Seq<Block>) -> bool {
    &&& chain.len() > 0 ==> chain[0].previous_digest@ == Seq::<char>::empty()
    &&& forall|i: int| 0 < i < chain.len() ==> chain[i].previous_digest@ == chain[i - 1].digest@
}

/// How many blocks of `chain` were produced by the validator named `id`.
pub open spec fn count_id(chain: Seq<Block>, id: Seq<char>) -> int
    decreases chain.len(),
{
    if chain.len() == 0 {
        0
    } else {
        count_id(chain.drop_last(), id) + if chain.last().validator_id@ == id {
            1int
        } else {
            0int
        }
    }
}

/// A producer with a positive tally appears in the counted blocks.
pub proof fn lemma_count_id_present(chain: Seq<Block>, id: Seq<char>)
    requires
        count_id(chain, id) > 0,
    ensures
        exists|j: int| 0 <= j < chain.len() && chain[j].validator_id@ == id,
    decreases chain.len(),
{
    if chain.last().validator_id@ == id {
        assert(chain[chain.len() - 1].validator_id@ == id);
    } else {
        lemma_count_id_present(chain.drop_last(), id);
        let j = choose|j: int|
            0 <= j < chain.drop_last().len() && chain.drop_last()[j].validator_id@ == id;
        assert(chain[j].validator_id@ == id);
    }
}

/// Field-for-field equality of two blocks, with the textual fields
/// compared by content.
pub open spec fn same_block(a: Block, b: Block) -> bool {
    &&& a.id == b.id
    &&& a.timestamp == b.timestamp
    &&& a.data@ == b.data@
    &&& a.validator_id@ == b.validator_id@
    &&& a.previous_digest@ == b.previous_digest@
    &&& a.digest@ == b.digest@
}

/// Decides field-for-field equality of two blocks.
pub fn block_eq(a: &Block, b: &Block) -> (r: bool)
    ensures
        r == same_block(*a, *b),
{
    a.id == b.id && a.timestamp == b.timestamp && a.data == b.data && a.validator_id
        == b.validator_id && a.previous_digest == b.previous_digest && a.digest == b.digest
}

} // verus!
