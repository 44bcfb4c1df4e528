//! A full backup: every block of the device, with its hash.

use vstd::prelude::*;

use crate::block::hasher::{block_hash_of, BlockHash, BlockHasher};

verus! {

/// `hashes` holds, in order, the hash record of each block of `blocks`.
pub open spec fn hashes_of_blocks(hashes: Seq<BlockHash>, blocks: Seq<(u64, Vec<u8>)>) -> bool {
    &&& hashes.len() == blocks.len()
    &&& forall|i: int| 0 <= i < blocks.len() ==> ((#[trigger] hashes[i]).block_number, hashes[i].hash@,
        hashes[i].block_size) == block_hash_of(blocks[i].0, blocks[i].1@)
}

/// The hash record of each block, in order.
pub fn hash_blocks(hasher: &BlockHasher, blocks: &Vec<(u64, Vec<u8>)>) -> (r: Vec<BlockHash>)
    ensures
        hashes_of_blocks(r@, blocks@),
{
    let mut r: Vec<BlockHash> = Vec::new();
    let n = blocks.len();
    let mut i: usize = 0;
    while i < n
        invariant
            n == blocks@.len(),
            i <= n,
            r@.len() == i,
            forall|k: int| 0 <= k < i ==> ((#[trigger] r@[k]).block_number, r@[k].hash@, r@[k].block_size)
                == block_hash_of(blocks@[k].0, blocks@[k].1@),
        decreases n - i,
    {
        r.push(hasher.hash_block_with_number(blocks[i].0, blocks[i].1.as_slice()));
        i = i + 1;
    }
    r
}

/// Backs up every block of a device.
pub struct FullBackup {
    block_size: u32,
    hasher: BlockHasher,
}

impl FullBackup {
    /// The block size blocks are read with.
    pub closed spec fn spec_block_size(&self) -> u32 {
        self.block_size
    }

    pub fn new(block_size: u32) -> (r: Self)
        ensures
            r.spec_block_size() == block_size,
    {
        FullBackup { block_size, hasher: BlockHasher::new() }
    }

    /// The hash records stored with the blocks read, in the order read.
    pub fn block_hashes(&self, blocks: &Vec<(u64, Vec<u8>)>) -> (r: Vec<BlockHash>)
        ensures
            hashes_of_blocks(r@, blocks@),
    {
        hash_blocks(&self.hasher, blocks)
    }
}

} // verus!
