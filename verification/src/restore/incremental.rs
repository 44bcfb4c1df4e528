//! Restoring a snapshot that stands on a chain: the data files of the chain,
//! oldest first, are applied one after another, each in block order.

use vstd::prelude::*;

use super::full::{is_ordered_write_list, lemma_ordered_writes_image, ordered_writes};
use crate::repository::block_records::{
    decode_records, encode_records, lemma_decode_encode_exact, lengths_fit, records_to_map, records_view,
};

verus! {

/// Restores a snapshot together with the snapshots it stands on.
pub struct IncrementalRestore;

/// The lists of a list of lists, one after another.
pub open spec fn concat_all<A>(groups: Seq<Seq<A>>) -> Seq<A>
    decreases groups.len(),
{
    if groups.len() == 0 {
        Seq::empty()
    } else {
        concat_all(groups.drop_last()) + groups.last()
    }
}

/// The block maps laid one over another, a later map winning for the blocks
/// it holds.
pub open spec fn overlay(maps: Seq<Map<u64, Seq<u8>>>) -> Map<u64, Seq<u8>>
    decreases maps.len(),
{
    if maps.len() == 0 {
        Map::empty()
    } else {
        overlay(maps.drop_last()).union_prefer_right(maps.last())
    }
}

/// The block maps of a chain of data files.
pub open spec fn chain_maps(data: Seq<Vec<u8>>) -> Seq<Map<u64, Seq<u8>>> {
    data.map_values(|b: Vec<u8>| records_to_map(decode_records(b@)))
}

/// `writes` applies each map in turn, each in block order.
pub open spec fn is_chain_write_list(writes: Seq<(u64, Seq<u8>)>, maps: Seq<Map<u64, Seq<u8>>>) -> bool {
    exists|groups: Seq<Seq<(u64, Seq<u8>)>>|
        #![trigger concat_all(groups)]
        groups.len() == maps.len() && writes == concat_all(groups) && forall|i: int|
            0 <= i < maps.len() ==> is_ordered_write_list(#[trigger] groups[i], maps[i])
}

/// Writing records one run after another leaves the first run's map with the
/// second run's blocks laid over it.
pub proof fn lemma_records_to_map_append(a: Seq<(u64, Seq<u8>)>, b: Seq<(u64, Seq<u8>)>)
    ensures
        records_to_map(a + b) == records_to_map(a).union_prefer_right(records_to_map(b)),
    decreases b.len(),
{
    if b.len() == 0 {
        assert(a + b =~= a);
        assert(records_to_map(a).union_prefer_right(Map::empty()) =~= records_to_map(a));
    } else {
        lemma_records_to_map_append(a, b.drop_last());
        assert((a + b).drop_last() =~= a + b.drop_last());
        assert((a + b).last() == b.last());
        assert(records_to_map(a + b) =~= records_to_map(a).union_prefer_right(records_to_map(b)));
    }
}

/// Applying the write lists of a chain leaves the chain's maps laid one over
/// another: for each block, the data of the latest snapshot that holds it.
pub proof fn lemma_chain_restore_image(groups: Seq<Seq<(u64, Seq<u8>)>>, maps: Seq<Map<u64, Seq<u8>>>)
    requires
        groups.len() == maps.len(),
        forall|i: int| 0 <= i < maps.len() ==> is_ordered_write_list(#[trigger] groups[i], maps[i]),
    ensures
        records_to_map(concat_all(groups)) == overlay(maps),
    decreases groups.len(),
{
    if groups.len() > 0 {
        let n = groups.len() - 1;
        assert forall|i: int| 0 <= i < n implies is_ordered_write_list(#[trigger] groups.drop_last()[i], maps.drop_last()[i]) by {
            assert(groups.drop_last()[i] == groups[i]);
            assert(maps.drop_last()[i] == maps[i]);
        }
        lemma_chain_restore_image(groups.drop_last(), maps.drop_last());
        lemma_records_to_map_append(concat_all(groups.drop_last()), groups.last());
        assert(is_ordered_write_list(groups[n], maps[n]));
        lemma_ordered_writes_image(groups.last(), maps.last());
    } else {
        assert(records_to_map(Seq::<(u64, Seq<u8>)>::empty()) =~= Map::empty());
    }
}

impl IncrementalRestore {
    /// The writes that restore a chain, given the data files of its
    /// snapshots oldest first: each file's blocks in block order, file after
    /// file.
    pub fn block_writes(&self, chain_data: &Vec<Vec<u8>>) -> (writes: Vec<(u64, Vec<u8>)>)
        ensures
            is_chain_write_list(records_view(writes@), chain_maps(chain_data@)),
            records_to_map(records_view(writes@)) == overlay(chain_maps(chain_data@)),
    {
        let ghost maps = chain_maps(chain_data@);
        let ghost mut groups: Seq<Seq<(u64, Seq<u8>)>> = Seq::empty();
        let mut writes: Vec<(u64, Vec<u8>)> = Vec::new();
        let n = chain_data.len();
        let mut i: usize = 0;
        while i < n
            invariant
                n == chain_data@.len(),
                maps == chain_maps(chain_data@),
                i <= n,
                groups.len() == i,
                records_view(writes@) == concat_all(groups),
                forall|j: int| 0 <= j < i ==> is_ordered_write_list(#[trigger] groups[j], maps[j]),
            decreases n - i,
        {
            let mut w = ordered_writes(chain_data[i].as_slice());
            let ghost g = records_view(w@);
            let ghost before = records_view(writes@);
            writes.append(&mut w);
            proof {
                assert(records_view(writes@) =~= before + g);
                let old_groups = groups;
                groups = groups.push(g);
                assert(groups.drop_last() =~= old_groups);
                assert forall|j: int| 0 <= j < i + 1 implies is_ordered_write_list(#[trigger] groups[j], maps[j]) by {
                    if j < i {
                        assert(groups[j] == old_groups[j]);
                    }
                }
            }
            i = i + 1;
        }
        proof {
            lemma_chain_restore_image(groups, maps);
        }
        writes
    }
}

/// Restoring a chain whose data files hold exactly what each backup of the
/// chain wrote leaves, for each block, the data the latest of those backups
/// wrote for it.
pub proof fn lemma_chain_round_trip(batches: Seq<Seq<(u64, Seq<u8>)>>, writes: Seq<(u64, Seq<u8>)>)
    requires
        forall|i: int| 0 <= i < batches.len() ==> lengths_fit(#[trigger] batches[i]),
        is_chain_write_list(
            writes,
            batches.map_values(|b: Seq<(u64, Seq<u8>)>| records_to_map(decode_records(encode_records(b)))),
        ),
    ensures
        records_to_map(writes) == overlay(batches.map_values(|b: Seq<(u64, Seq<u8>)>| records_to_map(b))),
{
    let read = batches.map_values(|b: Seq<(u64, Seq<u8>)>| records_to_map(decode_records(encode_records(b))));
    let written = batches.map_values(|b: Seq<(u64, Seq<u8>)>| records_to_map(b));
    assert forall|i: int| 0 <= i < batches.len() implies read[i] == written[i] by {
        lemma_decode_encode_exact(batches[i]);
    }
    assert(read =~= written);
    let groups = choose|groups: Seq<Seq<(u64, Seq<u8>)>>|
        #![trigger concat_all(groups)]
        groups.len() == read.len() && writes == concat_all(groups) && forall|i: int|
            0 <= i < read.len() ==> is_ordered_write_list(#[trigger] groups[i], read[i]);
    lemma_chain_restore_image(groups, written);
}

} // verus!
