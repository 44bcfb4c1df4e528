//! Block arithmetic for files, and the set of blocks changed with their data.

use std::collections::BTreeMap;
use vstd::prelude::*;
use vstd::std_specs::btree::spec_btree_map_iter;
use vstd::std_specs::iter::IteratorSpec;

use crate::repository::block_records::block_map_view;

verus! {

broadcast use {vstd::std_specs::btree::group_btree_axioms, vstd::laws_cmp::group_laws_cmp};

/// Maps byte offsets of a file to block numbers of fixed size.
pub struct FileBlockMapper {
    block_size: u32,
    file_size: u64,
}

impl FileBlockMapper {
    /// The block size the mapper was made with.
    pub closed spec fn spec_block_size(&self) -> u32 {
        self.block_size
    }

    /// The file size last recorded with `set_file_size`.
    pub closed spec fn spec_file_size(&self) -> u64 {
        self.file_size
    }

    pub fn new(block_size: u32) -> (m: Self)
        ensures
            m.spec_block_size() == block_size,
            m.spec_file_size() == 0,
    {
        FileBlockMapper { block_size, file_size: 0 }
    }

    /// The first and last block touched by the byte range `[offset, offset + length)`:
    /// the blocks of `offset` and of `offset + length - 1` (for an empty range
    /// the latter is the byte before `offset`).
    pub fn file_to_block_range(&self, offset: u64, length: u64) -> (r: (u64, u64))
        requires
            self.spec_block_size() > 0,
            offset + length <= u64::MAX,
            offset + length >= 1,
        ensures
            r.0 == offset as int / self.spec_block_size() as int,
            r.1 == (offset + length - 1) / self.spec_block_size() as int,
    {
        let bs = self.block_size as u64;
        let start_block = offset / bs;
        let end_block = (offset + length - 1) / bs;
        (start_block, end_block)
    }

    /// The position of `offset` inside its block.
    pub fn offset_in_block(&self, offset: u64) -> (r: u64)
        requires
            self.spec_block_size() > 0,
        ensures
            r == offset as int % self.spec_block_size() as int,
    {
        offset % (self.block_size as u64)
    }

    /// The byte offset at which block `block_num` starts.
    pub fn block_to_offset(&self, block_num: u64) -> (r: u64)
        requires
            block_num * self.spec_block_size() <= u64::MAX,
        ensures
            r == block_num * self.spec_block_size(),
    {
        block_num * (self.block_size as u64)
    }

    /// The number of blocks needed to hold `size` bytes.
    pub fn blocks_for_size(&self, size: u64) -> (r: u64)
        requires
            self.spec_block_size() > 0,
        ensures
            r == ceil_div(size as int, self.spec_block_size() as int),
    {
        let bs = self.block_size as u64;
        let q = size / bs;
        if size % bs == 0 {
            q
        } else {
            proof {
                assert(q * bs <= size) by (nonlinear_arith)
                    requires q == size / bs, bs > 0;
                assert(q < size) by (nonlinear_arith)
                    requires q == size / bs, bs > 0, size % bs != 0;
            }
            q + 1
        }
    }

    pub fn set_file_size(&mut self, size: u64)
        ensures
            final(self).spec_file_size() == size,
            final(self).spec_block_size() == old(self).spec_block_size(),
    {
        self.file_size = size;
    }
}

/// `n / d` rounded up.
pub open spec fn ceil_div(n: int, d: int) -> int {
    if n % d == 0 { n / d } else { n / d + 1 }
}

/// The total number of data bytes held in a block map.
pub open spec fn data_size(m: Map<u64, Seq<u8>>) -> nat
    decreases m.dom().len(),
{
    if m.dom().finite() && m.dom().len() > 0 {
        let k = m.dom().choose();
        m[k].len() + data_size(m.remove(k))
    } else {
        0
    }
}

/// Taking out any one block takes out exactly its bytes.
pub proof fn lemma_data_size_remove(m: Map<u64, Seq<u8>>, k: u64)
    requires
        m.dom().finite(),
        m.dom().contains(k),
    ensures
        data_size(m) == m[k].len() + data_size(m.remove(k)),
    decreases m.dom().len(),
{
    let j = m.dom().choose();
    if j != k {
        lemma_data_size_remove(m.remove(j), k);
        lemma_data_size_remove(m.remove(k), j);
        assert(m.remove(j).remove(k) =~= m.remove(k).remove(j));
    }
}

/// The blocks changed so far, each with its latest data.
pub struct ChangeMap {
    block_size: u32,
    changed_blocks: BTreeMap<u64, Vec<u8>>,
}

impl ChangeMap {
    /// Each changed block with its data.
    pub closed spec fn changes(&self) -> Map<u64, Seq<u8>> {
        block_map_view(self.changed_blocks@)
    }

    /// The block size the map was made with.
    pub closed spec fn map_block_size(&self) -> u32 {
        self.block_size
    }

    pub fn new(block_size: u32) -> (r: Self)
        ensures
            r.changes() == Map::<u64, Seq<u8>>::empty(),
            r.map_block_size() == block_size,
    {
        let r = ChangeMap { block_size, changed_blocks: BTreeMap::new() };
        assert(r.changes() =~= Map::<u64, Seq<u8>>::empty());
        r
    }

    /// Records `data` as the new contents of `block_number`, replacing any
    /// earlier record of it.
    pub fn record_change(&mut self, block_number: u64, data: Vec<u8>)
        ensures
            final(self).changes() == old(self).changes().insert(block_number, data@),
            final(self).map_block_size() == old(self).map_block_size(),
    {
        let ghost d = data@;
        self.changed_blocks.insert(block_number, data);
        assert(self.changes() =~= old(self).changes().insert(block_number, d));
    }

    /// How many distinct blocks changed.
    pub fn changed_block_count(&self) -> (r: usize)
        ensures
            r == self.changes().dom().len(),
    {
        assert(self.changes().dom() =~= self.changed_blocks@.dom());
        self.changed_blocks.len()
    }

    /// The number of data bytes over all changed blocks.
    pub fn total_changed_data_size(&self) -> (r: u64)
        requires
            data_size(self.changes()) <= u64::MAX,
        ensures
            r == data_size(self.changes()),
    {
        let ghost bm = self.changes();
        let ghost mut rest = bm;
        let mut total: u64 = 0;
        let iter = self.changed_blocks.iter();
        let ghost s = iter.remaining();
        assert(bm.dom() =~= self.changed_blocks@.dom());
        for kv in it: iter
            invariant
                bm == self.changes(),
                data_size(bm) <= u64::MAX,
                s == spec_btree_map_iter(&self.changed_blocks).remaining(),
                s.no_duplicates(),
                s.len() == bm.dom().len(),
                it.seq() == s,
                rest.dom().finite(),
                rest.dom().len() == s.len() - it.index(),
                forall|k: u64| #[trigger] rest.contains_key(k) ==> bm.contains_key(k) && rest[k] == bm[k],
                forall|j: int| it.index() <= j < s.len() ==> rest.contains_key(*(#[trigger] s[j]).0),
                total + data_size(rest) == data_size(bm),
        {
            let ghost i = it.index();
            let ghost k = *kv.0;
            assert(kv == s[i]);
            proof {
                lemma_data_size_remove(rest, k);
                assert(rest[k] == kv.1@);
                assert forall|j: int| i + 1 <= j < s.len() implies rest.remove(k).contains_key(*(#[trigger] s[j]).0) by {
                    assert(rest.contains_key(*s[j].0));
                    if *s[j].0 == k {
                        assert(s[j] == s[i]);
                    }
                }
                rest = rest.remove(k);
            }
            total = total + kv.1.len() as u64;
        }
        assert(rest.dom().len() == 0);
        total
    }

    /// The changed blocks, in increasing block order.
    pub fn get_changed_blocks(&self) -> (r: &BTreeMap<u64, Vec<u8>>)
        ensures
            block_map_view(r@) == self.changes(),
    {
        &self.changed_blocks
    }

    /// Gives up the map of changed blocks.
    pub fn into_changed_blocks(self) -> (r: BTreeMap<u64, Vec<u8>>)
        ensures
            block_map_view(r@) == self.changes(),
    {
        self.changed_blocks
    }

    /// Forgets every change.
    pub fn clear(&mut self)
        ensures
            final(self).changes() == Map::<u64, Seq<u8>>::empty(),
            final(self).map_block_size() == old(self).map_block_size(),
    {
        self.changed_blocks.clear();
        assert(self.changes() =~= Map::<u64, Seq<u8>>::empty());
    }
}

/// An offset lies in the block `offset / block_size`, at position
/// `offset % block_size`: the start of that block plus the position is the
/// offset again.
pub proof fn lemma_offset_in_its_block(block_size: int, offset: int)
    requires
        block_size > 0,
        offset >= 0,
    ensures
        (offset / block_size) * block_size + offset % block_size == offset,
        (offset / block_size) * block_size <= offset < (offset / block_size + 1) * block_size,
{
    assert((offset / block_size) * block_size + offset % block_size == offset) by (nonlinear_arith)
        requires
            block_size > 0,
    ;
    assert(0 <= offset % block_size < block_size) by (nonlinear_arith)
        requires
            block_size > 0,
    ;
    assert((offset / block_size + 1) * block_size == (offset / block_size) * block_size + block_size) by (
    nonlinear_arith);
}

/// `ceil_div(size, block_size)` blocks hold `size` bytes, and one block fewer
/// does not.
pub proof fn lemma_blocks_for_size_fit(block_size: int, size: int)
    requires
        block_size > 0,
        size >= 0,
    ensures
        ceil_div(size, block_size) * block_size >= size,
        size > 0 ==> (ceil_div(size, block_size) - 1) * block_size < size,
{
    lemma_offset_in_its_block(block_size, size);
    let q = size / block_size;
    assert((q + 1) * block_size == q * block_size + block_size) by (nonlinear_arith);
    assert((q - 1) * block_size == q * block_size - block_size) by (nonlinear_arith);
}

} // verus!
