//! An incremental backup: the changed blocks only, with their hashes.

use vstd::prelude::*;

use super::full::{hash_blocks, hashes_of_blocks};
use crate::block::hasher::{BlockHash, BlockHasher};

verus! {

/// Backs up the blocks that changed.
pub struct IncrementalBackup {
    block_size: u32,
    hasher: BlockHasher,
}

impl IncrementalBackup {
    /// The block size blocks are read with.
    pub closed spec fn spec_block_size(&self) -> u32 {
        self.block_size
    }

    pub fn new(block_size: u32) -> (r: Self)
        ensures
            r.spec_block_size() == block_size,
    {
        IncrementalBackup { block_size, hasher: BlockHasher::new() }
    }

    /// Whether there is anything to back up: some block changed.
    pub fn has_changes(&self, changed_blocks: &[u64]) -> (r: bool)
        ensures
            r == (changed_blocks@.len() > 0),
    {
        changed_blocks.len() > 0
    }

    /// The hash records stored with the changed blocks read, in the order read.
    pub fn block_hashes(&self, blocks: &Vec<(u64, Vec<u8>)>) -> (r: Vec<BlockHash>)
        ensures
            hashes_of_blocks(r@, blocks@),
    {
        hash_blocks(&self.hasher, blocks)
    }
}

} // verus!
