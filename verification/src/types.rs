//! Block identifiers and the canonical block representations.

use vstd::prelude::*;
use vstd::std_specs::cmp::PartialEqSpecImpl;

verus! {

/// Height and content hash of one block.
#[derive(Clone, Copy, Debug)]
pub struct BlockIdentifier {
    pub index: u64,
    pub hash: [u8; 32],
}

/// Whether two block hashes hold the same bytes.
pub fn hash_matches(a: &[u8; 32], b: &[u8; 32]) -> (same: bool)
    ensures
        same == (*a == *b),
{
    let mut i: usize = 0;
    while i < 32
        invariant
            i <= 32,
            forall|j: int| 0 <= j < i ==> a[j] == b[j],
        decreases 32 - i,
    {
        if a[i] != b[i] {
            return false;
        }
        i += 1;
    }
    assert(*a =~= *b);
    true
}

impl PartialEq for BlockIdentifier {
    fn eq(&self, other: &Self) -> (same: bool) {
        self.index == other.index && hash_matches(&self.hash, &other.hash)
    }
}

impl PartialEqSpecImpl for BlockIdentifier {
    open spec fn obeys_eq_spec() -> bool {
        true
    }

    open spec fn eq_spec(&self, other: &Self) -> bool {
        self.index == other.index && self.hash == other.hash
    }
}

impl Eq for BlockIdentifier {

}

impl BlockIdentifier {
    pub fn new(index: u64, hash: [u8; 32]) -> (id: BlockIdentifier)
        ensures
            id.index == index,
            id.hash == hash,
    {
        BlockIdentifier { index, hash }
    }
}

/// One transaction of a block's payload: its identifier and its raw bytes.
#[derive(Clone, Debug, PartialEq, Eq)]
pub struct TransactionData {
    pub transaction_identifier: [u8; 32],
    pub raw: Vec<u8>,
}

/// A canonical block of the base chain.
#[derive(Clone, Debug, PartialEq, Eq)]
pub struct BitcoinBlockData {
    pub block_identifier: BlockIdentifier,
    pub parent_block_identifier: BlockIdentifier,
    pub timestamp: u32,
    pub transactions: Vec<TransactionData>,
}

/// Consensus metadata that a block of the anchored chain carries.
#[derive(Clone, Copy, Debug, PartialEq, Eq)]
pub struct StacksBlockMetadata {
    pub bitcoin_anchor_block_identifier: BlockIdentifier,
    pub pox_cycle_index: u32,
    pub pox_cycle_position: u32,
    pub pox_cycle_length: u32,
}

/// A canonical block of the anchored chain.
#[derive(Clone, Debug, PartialEq, Eq)]
pub struct StacksBlockData {
    pub block_identifier: BlockIdentifier,
    pub parent_block_identifier: BlockIdentifier,
    pub timestamp: i64,
    pub transactions: Vec<TransactionData>,
    pub metadata: StacksBlockMetadata,
}

} // verus!
