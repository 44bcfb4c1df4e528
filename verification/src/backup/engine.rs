//! Running backups: which blocks an incremental backup takes.
//!
//! Finding the changed blocks alternates reads with decisions. The decisions
//! are made here, one step per event; the caller performs each action (a
//! tracker query, a listing, a manifest load, a device scan) and reports what
//! it found.

use std::collections::HashMap;
use vstd::prelude::*;

use crate::block::hasher::{blake3_digest, blake3_hash, bytes_equal, BlockHash, BlockHasher};
use crate::repository::layout::{last_full_index, latest_full_id, BackupSnapshot};

verus! {

/// The digest recorded for block `b` by the last record of it.
pub open spec fn stored_hash(hashes: Seq<BlockHash>, b: u64) -> Option<Seq<u8>>
    decreases hashes.len(),
{
    if hashes.len() == 0 {
        None
    } else if hashes.last().block_number == b {
        Some(hashes.last().hash@)
    } else {
        stored_hash(hashes.drop_last(), b)
    }
}

/// The blocks read whose content no longer has the digest recorded for them
/// (or that have no record), in the order read.
pub open spec fn hash_changed_blocks(hashes: Seq<BlockHash>, blocks: Seq<(u64, Seq<u8>)>) -> Seq<u64>
    decreases blocks.len(),
{
    if blocks.len() == 0 {
        Seq::empty()
    } else {
        let rest = hash_changed_blocks(hashes, blocks.drop_last());
        let b = blocks.last();
        if stored_hash(hashes, b.0) == Some(blake3_digest(b.1)) {
            rest
        } else {
            rest.push(b.0)
        }
    }
}

/// What the caller found after performing the last action.
pub enum DetectEvent {
    /// Nothing yet.
    Start,
    /// The blocks the change tracker reported.
    TrackerReported(Vec<u64>),
    /// The repository's snapshots, ordered by time.
    BackupsListed(Vec<BackupSnapshot>),
    /// The block hashes of the manifest of the comparison snapshot.
    ManifestLoaded(Vec<BlockHash>),
    /// Those block hashes again, with every block of the device read in
    /// block order.
    BlocksRead(Vec<BlockHash>, Vec<(u64, Vec<u8>)>),
}

/// What the caller does next.
pub enum DetectAction {
    /// Ask the platform's change tracker, from the last checkpoint.
    QueryTracker,
    /// List the repository's snapshots.
    ListBackups,
    /// Load the manifest of this snapshot.
    LoadManifest(String),
    /// Read every block of the device.
    ReadAllBlocks,
    /// These are the changed blocks.
    Finish(Vec<u64>),
}

/// Runs full and incremental backups of a device.
pub struct BackupEngine {
    block_size: u32,
    hasher: BlockHasher,
}

/// The label a backup gets when none is given.
pub open spec fn default_label(incremental: bool) -> Seq<char> {
    if incremental {
        "incremental-backup"@
    } else {
        "full-backup"@
    }
}

impl BackupEngine {
    /// The block size devices are read with.
    pub closed spec fn spec_block_size(&self) -> u32 {
        self.block_size
    }

    pub fn new(block_size: u32) -> (r: Result<Self, crate::utils::errors::HelixError>)
        ensures
            r matches Ok(e) && e.spec_block_size() == block_size,
    {
        Ok(BackupEngine { block_size, hasher: BlockHasher::new() })
    }

    /// The block size devices are read with.
    pub fn block_size(&self) -> (r: u32)
        ensures
            r == self.spec_block_size(),
    {
        self.block_size
    }

    /// The label of a backup: the one given, else the default of its kind.
    pub fn backup_label(&self, label: Option<&str>, incremental: bool) -> (r: String)
        ensures
            r@ == (match label {
                Some(l) => l@,
                None => default_label(incremental),
            }),
    {
        match label {
            Some(l) => String::from_str(l),
            None => if incremental {
                String::from_str("incremental-backup")
            } else {
                String::from_str("full-backup")
            },
        }
    }

    /// The blocks whose content changed against the recorded hashes: each
    /// block read whose digest differs from the last one recorded for it, or
    /// that has no record.
    pub fn changed_blocks_by_hash(&self, hashes: &Vec<BlockHash>, blocks: &Vec<(u64, Vec<u8>)>) -> (r: Vec<u64>)
        ensures
            r@ == hash_changed_blocks(hashes@, blocks_view(blocks@)),
    {
        let mut index: HashMap<u64, [u8; 32]> = HashMap::new();
        let nh = hashes.len();
        let mut i: usize = 0;
        while i < nh
            invariant
                nh == hashes@.len(),
                i <= nh,
                forall|b: u64| #[trigger] index@.contains_key(b) == (stored_hash(hashes@.take(i as int), b) is Some),
                forall|b: u64| index@.contains_key(b) ==> stored_hash(hashes@.take(i as int), b) == Some(
                    (#[trigger] index@[b])@,
                ),
            decreases nh - i,
        {
            index.insert(hashes[i].block_number, hashes[i].hash);
            assert(hashes@.take(i as int + 1).drop_last() =~= hashes@.take(i as int));
            i = i + 1;
        }
        assert(hashes@.take(nh as int) =~= hashes@);
        let ghost bv = blocks_view(blocks@);
        let mut changed: Vec<u64> = Vec::new();
        let n = blocks.len();
        let mut j: usize = 0;
        while j < n
            invariant
                n == blocks@.len(),
                bv == blocks_view(blocks@),
                j <= n,
                forall|b: u64| #[trigger] index@.contains_key(b) == (stored_hash(hashes@, b) is Some),
                forall|b: u64| index@.contains_key(b) ==> stored_hash(hashes@, b) == Some((#[trigger] index@[b])@),
                changed@ == hash_changed_blocks(hashes@, bv.take(j as int)),
            decreases n - j,
        {
            let b = blocks[j].0;
            let digest = blake3_hash(blocks[j].1.as_slice());
            assert(bv.take(j as int + 1).drop_last() =~= bv.take(j as int));
            assert(bv.take(j as int + 1).last() == bv[j as int]);
            let same = match index.get(&b) {
                Some(stored) => bytes_equal(stored, &digest),
                None => false,
            };
            if !same {
                changed.push(b);
            }
            j = j + 1;
        }
        assert(bv.take(n as int) =~= bv);
        changed
    }

    /// The next step of finding the blocks an incremental backup takes: the
    /// tracker's report when it names blocks; else a comparison of every
    /// block with the hashes of the latest full backup; nothing when there is
    /// no full backup or its manifest records no hash.
    pub fn detect_step(&self, event: DetectEvent) -> (r: DetectAction)
        ensures
            match event {
                DetectEvent::Start => r is QueryTracker,
                DetectEvent::TrackerReported(b) => if b@.len() > 0 {
                    r matches DetectAction::Finish(v) && v@ == b@
                } else {
                    r is ListBackups
                },
                DetectEvent::BackupsListed(list) => match last_full_index(list@) {
                    Some(i) => r matches DetectAction::LoadManifest(id) && id@ == list@[i].id@,
                    None => r matches DetectAction::Finish(v) && v@.len() == 0,
                },
                DetectEvent::ManifestLoaded(h) => if h@.len() == 0 {
                    r matches DetectAction::Finish(v) && v@.len() == 0
                } else {
                    r is ReadAllBlocks
                },
                DetectEvent::BlocksRead(h, blocks) => r matches DetectAction::Finish(v) && v@ == hash_changed_blocks(
                    h@,
                    blocks_view(blocks@),
                ),
            },
    {
        match event {
            DetectEvent::Start => DetectAction::QueryTracker,
            DetectEvent::TrackerReported(b) => {
                if b.len() > 0 {
                    DetectAction::Finish(b)
                } else {
                    DetectAction::ListBackups
                }
            },
            DetectEvent::BackupsListed(list) => match latest_full_id(&list) {
                Some(id) => DetectAction::LoadManifest(id),
                None => DetectAction::Finish(Vec::new()),
            },
            DetectEvent::ManifestLoaded(h) => {
                if h.len() == 0 {
                    DetectAction::Finish(Vec::new())
                } else {
                    DetectAction::ReadAllBlocks
                }
            },
            DetectEvent::BlocksRead(h, blocks) => DetectAction::Finish(self.changed_blocks_by_hash(&h, &blocks)),
        }
    }
}

/// Blocks read, taken by their contents.
pub open spec fn blocks_view(v: Seq<(u64, Vec<u8>)>) -> Seq<(u64, Seq<u8>)> {
    v.map_values(|e: (u64, Vec<u8>)| (e.0, e.1@))
}

/// The blocks the hash comparison reports are exactly the blocks read whose
/// content does not have the digest last recorded for them, in the order
/// read.
pub proof fn lemma_hash_changed_blocks_exact(hashes: Seq<BlockHash>, blocks: Seq<(u64, Seq<u8>)>)
    ensures
        forall|b: u64| #[trigger] hash_changed_blocks(hashes, blocks).contains(b) <==> exists|i: int|
            0 <= i < blocks.len() && blocks[i].0 == b && stored_hash(hashes, b) != Some(blake3_digest(blocks[i].1)),
        hash_changed_blocks(hashes, blocks).len() <= blocks.len(),
    decreases blocks.len(),
{
    if blocks.len() > 0 {
        let front = blocks.drop_last();
        lemma_hash_changed_blocks_exact(hashes, front);
        let rest = hash_changed_blocks(hashes, front);
        let last = blocks.last();
        assert forall|b: u64| #[trigger] hash_changed_blocks(hashes, blocks).contains(b) <==> exists|i: int|
            0 <= i < blocks.len() && blocks[i].0 == b && stored_hash(hashes, b) != Some(
                blake3_digest(blocks[i].1),
            ) by {
            if hash_changed_blocks(hashes, blocks).contains(b) {
                if rest.contains(b) {
                    let i = choose|i: int|
                        0 <= i < front.len() && front[i].0 == b && stored_hash(hashes, b) != Some(
                            blake3_digest(front[i].1),
                        );
                    assert(blocks[i] == front[i]);
                } else {
                    let k = choose|k: int| 0 <= k < hash_changed_blocks(hashes, blocks).len()
                        && hash_changed_blocks(hashes, blocks)[k] == b;
                    if k < rest.len() {
                        assert(rest[k] == b);
                    }
                    assert(blocks[blocks.len() - 1] == last);
                }
            }
            if exists|i: int|
                0 <= i < blocks.len() && blocks[i].0 == b && stored_hash(hashes, b) != Some(
                    blake3_digest(blocks[i].1),
                ) {
                let i = choose|i: int|
                    0 <= i < blocks.len() && blocks[i].0 == b && stored_hash(hashes, b) != Some(
                        blake3_digest(blocks[i].1),
                    );
                if i < blocks.len() - 1 {
                    assert(front[i] == blocks[i]);
                    assert(rest.contains(b));
                    let k = choose|k: int| 0 <= k < rest.len() && rest[k] == b;
                    if stored_hash(hashes, last.0) != Some(blake3_digest(last.1)) {
                        assert(hash_changed_blocks(hashes, blocks)[k] == b);
                    }
                } else {
                    assert(hash_changed_blocks(hashes, blocks) == rest.push(b));
                    assert(hash_changed_blocks(hashes, blocks)[rest.len() as int] == b);
                }
            }
        }
    }
}

} // verus!
