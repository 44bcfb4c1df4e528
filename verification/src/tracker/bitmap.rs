//! A change tracker that keeps the set of dirty blocks in memory.

use std::collections::BTreeSet;
use vstd::prelude::*;

use super::ordered::{is_increasing_listing, sorted_members};
use super::{ChangeTracker, Checkpoint};
use crate::utils::clock::now_unix_seconds;
use crate::utils::errors::HelixError;
use crate::utils::ids::{is_hyphenated_uuid, new_uuid_string};

verus! {

broadcast use {vstd::std_specs::btree::group_btree_axioms, vstd::laws_cmp::group_laws_cmp};

/// Records which blocks were written since the last checkpoint.
pub struct BitmapTracker {
    block_size: u32,
    dirty_blocks: BTreeSet<u64>,
    total_blocks: u64,
    checkpoints: Vec<Checkpoint>,
}

/// The blocks `start..=end`.
pub open spec fn block_span(start: u64, end: u64) -> Set<u64> {
    Set::new(|b: u64| start <= b <= end)
}

impl BitmapTracker {
    /// The blocks marked dirty since the last checkpoint or reset.
    pub closed spec fn dirty(&self) -> Set<u64> {
        self.dirty_blocks@
    }

    /// The checkpoints created so far, oldest first.
    pub closed spec fn history(&self) -> Seq<Checkpoint> {
        self.checkpoints@
    }

    /// The device size in blocks, as last set.
    pub closed spec fn total(&self) -> u64 {
        self.total_blocks
    }

    /// The block size the tracker was made for.
    pub closed spec fn tracked_block_size(&self) -> u32 {
        self.block_size
    }

    /// A tracker with no dirty block and no checkpoint.
    pub fn new(block_size: u32) -> (r: Result<Self, HelixError>)
        ensures
            r is Ok,
            r->Ok_0.dirty() == Set::<u64>::empty(),
            r->Ok_0.history() == Seq::<Checkpoint>::empty(),
            r->Ok_0.total() == 0,
            r->Ok_0.tracked_block_size() == block_size,
    {
        Ok(BitmapTracker {
            block_size,
            dirty_blocks: BTreeSet::new(),
            total_blocks: 0,
            checkpoints: Vec::new(),
        })
    }

    /// Marks one block as changed.
    pub fn mark_dirty(&mut self, block_num: u64)
        ensures
            final(self).dirty() == old(self).dirty().insert(block_num),
            final(self).history() == old(self).history(),
            final(self).total() == old(self).total(),
            final(self).tracked_block_size() == old(self).tracked_block_size(),
    {
        self.dirty_blocks.insert(block_num);
    }

    /// Marks every block from `start` to `end`, both included, as changed;
    /// nothing when `start > end`.
    pub fn mark_range_dirty(&mut self, start: u64, end: u64)
        ensures
            final(self).dirty() == old(self).dirty().union(block_span(start, end)),
            final(self).history() == old(self).history(),
            final(self).total() == old(self).total(),
            final(self).tracked_block_size() == old(self).tracked_block_size(),
    {
        if start > end {
            assert(block_span(start, end) =~= Set::empty());
            assert(old(self).dirty().union(Set::empty()) =~= old(self).dirty());
            return;
        }
        let mut b = start;
        loop
            invariant_except_break
                self.dirty_blocks@ == old(self).dirty_blocks@.union(Set::new(|x: u64| start <= x < b)),
            invariant
                start <= b <= end,
                self.checkpoints@ == old(self).checkpoints@,
                self.total_blocks == old(self).total_blocks,
                self.block_size == old(self).block_size,
            ensures
                self.dirty_blocks@ == old(self).dirty_blocks@.union(block_span(start, end)),
            decreases end - b,
        {
            let ghost before = self.dirty_blocks@;
            self.dirty_blocks.insert(b);
            if b == end {
                assert(self.dirty_blocks@ =~= old(self).dirty_blocks@.union(block_span(start, end)));
                break;
            }
            assert(self.dirty_blocks@ =~= old(self).dirty_blocks@.union(Set::new(|x: u64| start <= x < b + 1)));
            b = b + 1;
        }
    }

    /// Records a checkpoint with the given id and clock reading that counts
    /// the dirty blocks, then clears them.
    pub fn record_checkpoint(&mut self, id: String, timestamp: i64) -> (r: Checkpoint)
        ensures
            r.id@ == id@,
            r.timestamp == timestamp,
            r.block_count == old(self).dirty().len(),
            r.tracking_method@ == "bitmap"@,
            final(self).history() == old(self).history().push(r),
            final(self).dirty() == Set::<u64>::empty(),
            final(self).total() == old(self).total(),
            final(self).tracked_block_size() == old(self).tracked_block_size(),
    {
        let count = self.dirty_blocks.len();
        let checkpoint = Checkpoint {
            id,
            timestamp,
            block_count: count as u64,
            tracking_method: String::from_str("bitmap"),
        };
        self.checkpoints.push(checkpoint.duplicate());
        self.dirty_blocks.clear();
        checkpoint
    }

    /// Records the device size in blocks.
    pub fn set_total_blocks(&mut self, count: u64)
        ensures
            final(self).total() == count,
            final(self).dirty() == old(self).dirty(),
            final(self).history() == old(self).history(),
            final(self).tracked_block_size() == old(self).tracked_block_size(),
    {
        self.total_blocks = count;
    }
}

impl ChangeTracker for BitmapTracker {
    /// Every dirty block once, smallest first; the checkpoint is not consulted.
    fn get_changed_blocks(&self, since: Option<Checkpoint>) -> (r: Result<Vec<u64>, HelixError>)
        ensures
            r is Ok,
            is_increasing_listing(r->Ok_0@, self.dirty()),
    {
        Ok(sorted_members(&self.dirty_blocks))
    }

    /// Records a checkpoint that counts the dirty blocks, then clears them.
    fn create_checkpoint(&mut self) -> (r: Result<Checkpoint, HelixError>)
        ensures
            r is Ok,
            r->Ok_0.block_count == old(self).dirty().len(),
            r->Ok_0.tracking_method@ == "bitmap"@,
            is_hyphenated_uuid(r->Ok_0.id@),
            final(self).history() == old(self).history().push(r->Ok_0),
            final(self).dirty() == Set::<u64>::empty(),
            final(self).total() == old(self).total(),
            final(self).tracked_block_size() == old(self).tracked_block_size(),
    {
        let id = new_uuid_string();
        let timestamp = now_unix_seconds();
        Ok(self.record_checkpoint(id, timestamp))
    }

    /// Forgets every dirty block; checkpoints stay.
    fn reset_tracking(&mut self) -> (r: Result<(), HelixError>)
        ensures
            r is Ok,
            final(self).dirty() == Set::<u64>::empty(),
            final(self).history() == old(self).history(),
            final(self).total() == old(self).total(),
            final(self).tracked_block_size() == old(self).tracked_block_size(),
    {
        self.dirty_blocks.clear();
        Ok(())
    }

    /// The checkpoint created last, if any.
    fn get_current_checkpoint(&self) -> (r: Result<Option<Checkpoint>, HelixError>)
        ensures
            r is Ok,
            r->Ok_0 == (if self.history().len() == 0 {
                None
            } else {
                Some(self.history().last())
            }),
    {
        let n = self.checkpoints.len();
        if n == 0 {
            Ok(None)
        } else {
            Ok(Some(self.checkpoints[n - 1].duplicate()))
        }
    }
}

} // verus!
