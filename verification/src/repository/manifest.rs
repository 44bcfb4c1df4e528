//! The manifest of a snapshot, and the description of a restore chain.

use vstd::prelude::*;

use crate::block::hasher::BlockHash;
use crate::utils::clock::now_rfc3339;

verus! {

/// What a snapshot holds and how it was made.
pub struct Manifest {
    pub version: u32,
    pub snapshot_id: String,
    pub backup_type: String,
    pub created_at: String,
    pub completed_at: Option<String>,
    pub completed: bool,
    pub block_size: u32,
    pub block_count: u64,
    pub total_size: u64,
    pub compressed: bool,
    pub encrypted: bool,
    pub label: String,
    pub parent_id: Option<String>,
    pub block_hashes: Vec<BlockHash>,
}

impl Manifest {
    /// The manifest of a new, empty, unfinished snapshot, stamped with the
    /// current time.
    pub fn new(snapshot_id: &str, backup_type: &str, block_size: u32) -> (m: Self)
        ensures
            m.version == 1,
            m.snapshot_id@ == snapshot_id@,
            m.backup_type@ == backup_type@,
            m.completed_at is None,
            !m.completed,
            m.block_size == block_size,
            m.block_count == 0,
            m.total_size == 0,
            !m.compressed,
            !m.encrypted,
            m.label@ == Seq::<char>::empty(),
            m.parent_id is None,
            m.block_hashes@.len() == 0,
    {
        Manifest {
            version: 1,
            snapshot_id: String::from_str(snapshot_id),
            backup_type: String::from_str(backup_type),
            created_at: now_rfc3339(),
            completed_at: None,
            completed: false,
            block_size,
            block_count: 0,
            total_size: 0,
            compressed: false,
            encrypted: false,
            label: String::new(),
            parent_id: None,
            block_hashes: Vec::new(),
        }
    }

    /// Appends the hash of one more block, counting the block and its bytes.
    pub fn add_block_hash(&mut self, hash: BlockHash)
        requires
            old(self).block_count < u64::MAX,
            old(self).total_size + hash.block_size <= u64::MAX,
        ensures
            final(self).block_hashes@ == old(self).block_hashes@.push(hash),
            final(self).block_count == old(self).block_count + 1,
            final(self).total_size == old(self).total_size + hash.block_size,
            final(self).snapshot_id == old(self).snapshot_id,
            final(self).backup_type == old(self).backup_type,
            final(self).created_at == old(self).created_at,
            final(self).completed == old(self).completed,
            final(self).label == old(self).label,
            final(self).parent_id == old(self).parent_id,
            final(self).block_size == old(self).block_size,
            final(self).version == old(self).version,
            final(self).completed_at == old(self).completed_at,
            final(self).compressed == old(self).compressed,
            final(self).encrypted == old(self).encrypted,
    {
        self.block_count = self.block_count + 1;
        self.total_size = self.total_size + hash.block_size as u64;
        self.block_hashes.push(hash);
    }

    /// Appends hashes in order and sets the block count to the number of
    /// hashes held; the byte total is left as it is.
    pub fn store_block_hashes(&mut self, hashes: &[BlockHash])
        ensures
            final(self).block_hashes@ == old(self).block_hashes@ + hashes@,
            final(self).block_count == final(self).block_hashes@.len(),
            final(self).total_size == old(self).total_size,
            final(self).snapshot_id == old(self).snapshot_id,
            final(self).backup_type == old(self).backup_type,
            final(self).created_at == old(self).created_at,
            final(self).completed == old(self).completed,
            final(self).label == old(self).label,
            final(self).parent_id == old(self).parent_id,
            final(self).block_size == old(self).block_size,
            final(self).version == old(self).version,
            final(self).completed_at == old(self).completed_at,
            final(self).compressed == old(self).compressed,
            final(self).encrypted == old(self).encrypted,
    {
        let n = hashes.len();
        let mut i: usize = 0;
        while i < n
            invariant
                n == hashes@.len(),
                i <= n,
                self.block_hashes@ == old(self).block_hashes@ + hashes@.take(i as int),
                self.total_size == old(self).total_size,
                self.snapshot_id == old(self).snapshot_id,
                self.backup_type == old(self).backup_type,
                self.created_at == old(self).created_at,
                self.completed == old(self).completed,
                self.label == old(self).label,
                self.parent_id == old(self).parent_id,
                self.block_size == old(self).block_size,
                self.version == old(self).version,
                self.completed_at == old(self).completed_at,
                self.compressed == old(self).compressed,
                self.encrypted == old(self).encrypted,
            decreases n - i,
        {
            self.block_hashes.push(hashes[i].duplicate());
            assert(hashes@.take(i as int + 1) =~= hashes@.take(i as int).push(hashes@[i as int]));
            i = i + 1;
        }
        assert(hashes@.take(n as int) =~= hashes@);
        self.block_count = self.block_hashes.len() as u64;
    }

    /// Marks the snapshot complete.
    pub fn finalize(&mut self)
        ensures
            final(self).completed,
            final(self).block_hashes == old(self).block_hashes,
            final(self).block_count == old(self).block_count,
            final(self).total_size == old(self).total_size,
            final(self).snapshot_id == old(self).snapshot_id,
            final(self).backup_type == old(self).backup_type,
            final(self).created_at == old(self).created_at,
            final(self).label == old(self).label,
            final(self).parent_id == old(self).parent_id,
            final(self).block_size == old(self).block_size,
            final(self).version == old(self).version,
            final(self).completed_at == old(self).completed_at,
            final(self).compressed == old(self).compressed,
            final(self).encrypted == old(self).encrypted,
    {
        self.completed = true;
    }
}

/// One snapshot of a restore chain.
pub struct RestoreChainEntry {
    pub snapshot_id: String,
    pub backup_type: String,
    pub block_count: u64,
    pub sequence: u32,
}

/// The snapshots to apply, in order, to restore a target snapshot.
pub struct RestoreChain {
    pub entries: Vec<RestoreChainEntry>,
    pub total_blocks: u64,
    pub target_snapshot: String,
}

} // verus!
