//! Restoring one snapshot: its data file is read as a block map and the
//! blocks are written to the target in increasing block order.

use std::collections::BTreeMap;
use vstd::prelude::*;
use vstd::slice::*;
use vstd::std_specs::btree::{increasing_seq, spec_btree_map_iter};
use vstd::std_specs::cmp::OrdSpec;
use vstd::std_specs::iter::IteratorSpec;

use crate::repository::block_records::{
    block_map_view, decode_block_records, decode_records, encode_records, lemma_decode_encode_exact, lengths_fit,
    records_to_map, records_view,
};

verus! {

broadcast use {vstd::std_specs::btree::group_btree_axioms, vstd::laws_cmp::group_laws_cmp};

/// Restores a snapshot that stands on its own.
pub struct FullRestore;

/// The writes to make, in order: every block of `m` once, with its data,
/// block numbers strictly increasing.
pub open spec fn is_ordered_write_list(writes: Seq<(u64, Seq<u8>)>, m: Map<u64, Seq<u8>>) -> bool {
    &&& forall|i: int, j: int| 0 <= i < j < writes.len() ==> writes[i].0 < writes[j].0
    &&& forall|i: int| 0 <= i < writes.len() ==> #[trigger] m.contains_key(writes[i].0)
        && m[writes[i].0] == writes[i].1
    &&& forall|k: u64| #[trigger] m.contains_key(k) ==> exists|i: int| 0 <= i < writes.len() && writes[i].0 == k
}

impl FullRestore {
    /// The writes that restore the blocks held in a snapshot data file.
    pub fn block_writes(&self, buffer: &[u8]) -> (writes: Vec<(u64, Vec<u8>)>)
        ensures
            is_ordered_write_list(records_view(writes@), records_to_map(decode_records(buffer@))),
    {
        ordered_writes(buffer)
    }
}

/// The writes for a data file, ordered by block number.
pub fn ordered_writes(buffer: &[u8]) -> (writes: Vec<(u64, Vec<u8>)>)
    ensures
        is_ordered_write_list(records_view(writes@), records_to_map(decode_records(buffer@))),
{
    let records = decode_block_records(buffer);
    let m = map_from_records(&records);
    writes_in_key_order(&m)
}

/// Collects records into a map, a later record of a block replacing an earlier one.
fn map_from_records(records: &Vec<(u64, Vec<u8>)>) -> (m: BTreeMap<u64, Vec<u8>>)
    ensures
        block_map_view(m@) == records_to_map(records_view(records@)),
{
    let ghost rv = records_view(records@);
    let mut m: BTreeMap<u64, Vec<u8>> = BTreeMap::new();
    let n = records.len();
    let mut i: usize = 0;
    while i < n
        invariant
            n == records@.len(),
            rv == records_view(records@),
            0 <= i <= n,
            block_map_view(m@) == records_to_map(rv.take(i as int)),
        decreases n - i,
    {
        let block_number = records[i].0;
        let data = slice_to_vec(records[i].1.as_slice());
        let ghost old_m = m@;
        m.insert(block_number, data);
        proof {
            assert(rv.take(i as int + 1).drop_last() =~= rv.take(i as int));
            assert(block_map_view(m@) =~= block_map_view(old_m).insert(block_number, data@));
        }
        i = i + 1;
    }
    assert(rv.take(n as int) =~= rv);
    m
}

proof fn lemma_increasing_keys(keys: Seq<u64>)
    requires
        increasing_seq(keys),
    ensures
        forall|a: int, b: int| 0 <= a < b < keys.len() ==> keys[a] < keys[b],
{
    assert forall|a: int, b: int| 0 <= a < b < keys.len() implies keys[a] < keys[b] by {
        assert(keys[a].cmp_spec(&keys[b]) is Less);
    }
}

/// The entries of a map as a list in increasing key order.
fn writes_in_key_order(m: &BTreeMap<u64, Vec<u8>>) -> (writes: Vec<(u64, Vec<u8>)>)
    ensures
        is_ordered_write_list(records_view(writes@), block_map_view(m@)),
{
    let mut writes: Vec<(u64, Vec<u8>)> = Vec::new();
    let iter = m.iter();
    let ghost s = iter.remaining();
    assert(s.len() == m@.dom().len());
    for kv in it: iter
        invariant
            s == spec_btree_map_iter(m).remaining(),
            increasing_seq(s.map_values(|kv: (&u64, &Vec<u8>)| *kv.0)),
            it.seq() == s,
            writes@.len() == it.index(),
            forall|j: int| 0 <= j < writes@.len() ==> #[trigger] writes@[j].0 == *s[j].0,
            forall|j: int| 0 <= j < writes@.len() ==> #[trigger] writes@[j].1@ == s[j].1@,
    {
        assert(kv == s[it.index()]);
        let data = slice_to_vec(kv.1.as_slice());
        let ghost old_writes = writes@;
        writes.push((*kv.0, data));
        assert forall|j: int| 0 <= j < writes@.len() implies #[trigger] writes@[j].0 == *s[j].0
            && writes@[j].1@ == s[j].1@ by {
            if j < old_writes.len() {
                assert(writes@[j] == old_writes[j]);
            } else {
                assert(j == it.index());
                assert(writes@[j].1@ == data@);
            }
        }
    }
    assert(writes@.len() == s.len());
    assert(forall|j: int| 0 <= j < writes@.len() ==> #[trigger] writes@[j].0 == *s[j].0
        && writes@[j].1@ == s[j].1@);
    proof {
        let keys = s.map_values(|kv: (&u64, &Vec<u8>)| *kv.0);
        lemma_increasing_keys(keys);
        assert forall|a: int, b: int| 0 <= a < b < writes@.len() implies writes@[a].0 < writes@[b].0 by {
            assert(keys[a] == writes@[a].0);
            assert(keys[b] == writes@[b].0);
        }
        let w = records_view(writes@);
        let bm = block_map_view(m@);
        assert forall|i: int| 0 <= i < w.len() implies #[trigger] bm.contains_key(w[i].0)
            && bm[w[i].0] == w[i].1 by {
            assert(m@.contains_key(*s[i].0) && m@[*s[i].0] == *s[i].1);
        }
        assert forall|k: u64| #[trigger] bm.contains_key(k) implies exists|i: int| 0 <= i < w.len() && w[i].0 == k by {
            assert(m@.contains_key(k));
            assert(s.contains((&k, &m@[k])));
            let i = choose|i: int| 0 <= i < s.len() && s[i] == (&k, &m@[k]);
            assert(w[i].0 == k);
        }
    }
    writes
}

/// Applying an ordered write list leaves exactly the blocks of its map.
pub proof fn lemma_ordered_writes_image(writes: Seq<(u64, Seq<u8>)>, m: Map<u64, Seq<u8>>)
    requires
        is_ordered_write_list(writes, m),
    ensures
        records_to_map(writes) == m,
    decreases writes.len(),
{
    if writes.len() == 0 {
        assert(m =~= Map::<u64, Seq<u8>>::empty()) by {
            assert forall|k: u64| !#[trigger] m.contains_key(k) by {
                if m.contains_key(k) {
                    let i = choose|i: int| 0 <= i < writes.len() && writes[i].0 == k;
                }
            }
        }
    } else {
        let last = writes.last();
        let w = writes.drop_last();
        let k = last.0;
        let m1 = m.remove(k);
        assert(m.contains_key(k) && m[k] == last.1) by {
            assert(writes[writes.len() - 1] == last);
        }
        assert forall|i: int| 0 <= i < w.len() implies #[trigger] m1.contains_key(w[i].0) && m1[w[i].0] == w[i].1 by {
            assert(w[i] == writes[i]);
            assert(writes[i].0 < writes[writes.len() - 1].0);
        }
        assert forall|key: u64| #[trigger] m1.contains_key(key) implies exists|i: int| 0 <= i < w.len() && w[i].0 == key by {
            assert(m.contains_key(key));
            let i = choose|i: int| 0 <= i < writes.len() && writes[i].0 == key;
            assert(i != writes.len() - 1);
            assert(w[i] == writes[i]);
        }
        assert forall|i: int, j: int| 0 <= i < j < w.len() implies w[i].0 < w[j].0 by {
            assert(w[i] == writes[i] && w[j] == writes[j]);
        }
        lemma_ordered_writes_image(w, m1);
        assert(records_to_map(writes) =~= m1.insert(k, last.1));
        assert(m1.insert(k, last.1) =~= m);
    }
}

/// Restoring a snapshot whose data file holds exactly the blocks a backup
/// wrote leaves each of those blocks with the data last written for it.
pub proof fn lemma_full_restore_round_trip(blocks: Seq<(u64, Seq<u8>)>, writes: Seq<(u64, Seq<u8>)>)
    requires
        lengths_fit(blocks),
        is_ordered_write_list(writes, records_to_map(decode_records(encode_records(blocks)))),
    ensures
        records_to_map(writes) == records_to_map(blocks),
{
    lemma_decode_encode_exact(blocks);
    lemma_ordered_writes_image(writes, records_to_map(blocks));
}

} // verus!
