//! The layout of a snapshot's `blocks.dat`: a run of records, each the block
//! number as 8 little-endian bytes, the data length as 4 little-endian bytes,
//! then the data itself.

use vstd::bytes::*;
use vstd::prelude::*;
use vstd::slice::*;
use std::collections::HashMap;

verus! {

/// The size of a record's header: block number and data length.
pub const RECORD_HEADER_LEN: usize = 12;

/// A list of (block number, data) pairs, with each data buffer taken by its contents.
pub open spec fn records_view(v: Seq<(u64, Vec<u8>)>) -> Seq<(u64, Seq<u8>)> {
    v.map_values(|r: (u64, Vec<u8>)| (r.0, r.1@))
}

/// The bytes of one record. A length that does not fit in 32 bits is written
/// truncated, as the writer casts it.
pub open spec fn record_bytes(block_number: u64, data: Seq<u8>) -> Seq<u8> {
    spec_u64_to_le_bytes(block_number) + spec_u32_to_le_bytes(data.len() as u32) + data
}

/// The bytes of a whole run of records, in order.
pub open spec fn encode_records(records: Seq<(u64, Seq<u8>)>) -> Seq<u8>
    decreases records.len(),
{
    if records.len() == 0 {
        Seq::empty()
    } else {
        record_bytes(records[0].0, records[0].1) + encode_records(records.drop_first())
    }
}

/// What a reader recovers from a buffer: records are read from the front while
/// a whole header remains; a record whose data runs past the end stops the read,
/// and so does a tail shorter than a header.
pub open spec fn decode_records(buf: Seq<u8>) -> Seq<(u64, Seq<u8>)>
    decreases buf.len(),
{
    if buf.len() < RECORD_HEADER_LEN {
        Seq::empty()
    } else {
        let block_number = spec_u64_from_le_bytes(buf.subrange(0, 8));
        let size = spec_u32_from_le_bytes(buf.subrange(8, 12));
        if RECORD_HEADER_LEN + size > buf.len() {
            Seq::empty()
        } else {
            seq![(block_number, buf.subrange(12, 12 + size))]
                + decode_records(buf.subrange(12 + size, buf.len() as int))
        }
    }
}

/// Every data buffer's length fits in the 32-bit length field.
pub open spec fn lengths_fit(records: Seq<(u64, Seq<u8>)>) -> bool {
    forall|i: int| 0 <= i < records.len() ==> #[trigger] records[i].1.len() <= u32::MAX
}

proof fn lemma_encode_push(records: Seq<(u64, Seq<u8>)>, r: (u64, Seq<u8>))
    ensures
        encode_records(records.push(r)) == encode_records(records) + record_bytes(r.0, r.1),
    decreases records.len(),
{
    if records.len() == 0 {
        assert(records.push(r).drop_first() =~= Seq::<(u64, Seq<u8>)>::empty());
        assert(encode_records(Seq::<(u64, Seq<u8>)>::empty()) =~= Seq::<u8>::empty());
        assert(encode_records(records.push(r)) =~= record_bytes(r.0, r.1));
        assert(encode_records(records) =~= Seq::<u8>::empty());
    } else {
        lemma_encode_push(records.drop_first(), r);
        assert(records.push(r).drop_first() =~= records.drop_first().push(r));
        assert(encode_records(records.push(r)) =~= record_bytes(records[0].0, records[0].1)
            + (encode_records(records.drop_first()) + record_bytes(r.0, r.1)));
    }
}

proof fn lemma_decode_record(block_number: u64, data: Seq<u8>, rest: Seq<u8>)
    requires
        data.len() <= u32::MAX,
    ensures
        decode_records(record_bytes(block_number, data) + rest)
            == seq![(block_number, data)] + decode_records(rest),
{
    lemma_auto_spec_u64_to_from_le_bytes();
    lemma_auto_spec_u32_to_from_le_bytes();
    let buf = record_bytes(block_number, data) + rest;
    let num_bytes = spec_u64_to_le_bytes(block_number);
    let len_bytes = spec_u32_to_le_bytes(data.len() as u32);
    assert(buf.subrange(0, 8) =~= num_bytes);
    assert(buf.subrange(8, 12) =~= len_bytes);
    assert((data.len() as u32) as int == data.len());
    assert(buf.subrange(12, 12 + data.len() as int) =~= data);
    assert(buf.subrange(12 + data.len() as int, buf.len() as int) =~= rest);
}

/// Reading back what was written gives the written records, followed by
/// whatever the bytes after them hold, provided each length fits its field.
pub proof fn lemma_decode_encode(records: Seq<(u64, Seq<u8>)>, rest: Seq<u8>)
    requires
        lengths_fit(records),
    ensures
        decode_records(encode_records(records) + rest) == records + decode_records(rest),
    decreases records.len(),
{
    if records.len() == 0 {
        assert(encode_records(records) + rest =~= rest);
        assert(records + decode_records(rest) =~= decode_records(rest));
    } else {
        let tail = records.drop_first();
        assert(lengths_fit(tail)) by {
            assert forall|i: int| 0 <= i < tail.len() implies #[trigger] tail[i].1.len() <= u32::MAX by {
                assert(tail[i] == records[i + 1]);
            }
        }
        assert(records[0].1.len() <= u32::MAX) by {
            assert(records[0] == records[0]);
        }
        lemma_decode_encode(tail, rest);
        lemma_decode_record(records[0].0, records[0].1, encode_records(tail) + rest);
        assert(encode_records(records) + rest =~= record_bytes(records[0].0, records[0].1)
            + (encode_records(tail) + rest));
        assert(records =~= seq![records[0]] + tail);
    }
}

/// A file holding exactly the written records reads back as those records.
pub proof fn lemma_decode_encode_exact(records: Seq<(u64, Seq<u8>)>)
    requires
        lengths_fit(records),
    ensures
        decode_records(encode_records(records)) == records,
{
    lemma_decode_encode(records, Seq::empty());
    assert(encode_records(records) + Seq::<u8>::empty() =~= encode_records(records));
    assert(decode_records(Seq::<u8>::empty()) =~= Seq::<(u64, Seq<u8>)>::empty());
    assert(records + Seq::<(u64, Seq<u8>)>::empty() =~= records);
}

/// Appending two batches to a file and reading it back gives both batches, in order.
pub proof fn lemma_decode_appended(first: Seq<(u64, Seq<u8>)>, second: Seq<(u64, Seq<u8>)>)
    requires
        lengths_fit(first),
        lengths_fit(second),
    ensures
        decode_records(encode_records(first) + encode_records(second)) == first + second,
{
    lemma_decode_encode(first, encode_records(second));
    lemma_decode_encode_exact(second);
}

/// The bytes that appending `blocks` adds to a snapshot's data file.
pub fn encode_block_records(blocks: &[(u64, Vec<u8>)]) -> (out: Vec<u8>)
    ensures
        out@ == encode_records(records_view(blocks@)),
{
    let mut out: Vec<u8> = Vec::new();
    let n = blocks.len();
    let mut i: usize = 0;
    while i < n
        invariant
            n == blocks@.len(),
            0 <= i <= n,
            out@ == encode_records(records_view(blocks@.take(i as int))),
        decreases n - i,
    {
        let block_number = blocks[i].0;
        let data = &blocks[i].1;
        #[verifier::truncate]
        let size = data.len() as u32;
        let mut num_bytes = u64_to_le_bytes(block_number);
        let mut size_bytes = u32_to_le_bytes(size);
        let mut data_bytes = slice_to_vec(data.as_slice());
        proof {
            let prefix = records_view(blocks@.take(i as int));
            let r = (block_number, data@);
            lemma_encode_push(prefix, r);
            assert(records_view(blocks@.take(i as int + 1)) =~= prefix.push(r));
        }
        let ghost before = out@;
        out.append(&mut num_bytes);
        out.append(&mut size_bytes);
        out.append(&mut data_bytes);
        assert(out@ =~= before + record_bytes(block_number, data@));
        i = i + 1;
    }
    assert(blocks@.take(n as int) =~= blocks@);
    out
}

/// The records a buffer holds, read as the snapshot reader reads them.
pub fn decode_block_records(buffer: &[u8]) -> (out: Vec<(u64, Vec<u8>)>)
    ensures
        records_view(out@) == decode_records(buffer@),
{
    let len = buffer.len();
    let mut out: Vec<(u64, Vec<u8>)> = Vec::new();
    let mut offset: usize = 0;
    assert(buffer@.subrange(0, len as int) =~= buffer@);
    assert(records_view(out@) =~= Seq::<(u64, Seq<u8>)>::empty());
    assert(records_view(out@) + decode_records(buffer@) =~= decode_records(buffer@));
    while offset <= len && len - offset >= RECORD_HEADER_LEN
        invariant
            len == buffer@.len(),
            0 <= offset <= len,
            records_view(out@) + decode_records(buffer@.subrange(offset as int, len as int))
                == decode_records(buffer@),
        decreases len - offset,
    {
        let ghost rest = buffer@.subrange(offset as int, len as int);
        let block_number = u64_from_le_bytes(slice_subrange(buffer, offset, offset + 8));
        let size = u32_from_le_bytes(slice_subrange(buffer, offset + 8, offset + 12));
        assert(buffer@.subrange(offset as int, offset + 8) =~= rest.subrange(0, 8));
        assert(buffer@.subrange(offset + 8, offset + 12) =~= rest.subrange(8, 12));
        let body_start = offset + RECORD_HEADER_LEN;
        if (size as usize) > len - body_start {
            assert(decode_records(rest) =~= Seq::<(u64, Seq<u8>)>::empty());
            assert(records_view(out@) + decode_records(rest) =~= records_view(out@));
            return out;
        }
        let body_end = body_start + size as usize;
        let data = slice_to_vec(slice_subrange(buffer, body_start, body_end));
        proof {
            assert(data@ =~= rest.subrange(12, 12 + size));
            assert(buffer@.subrange(body_end as int, len as int) =~= rest.subrange(12 + size, rest.len() as int));
        }
        let ghost old_out = out@;
        out.push((block_number, data));
        assert(records_view(out@) =~= records_view(old_out).push((block_number, data@)));
        assert(records_view(out@) + decode_records(buffer@.subrange(body_end as int, len as int))
            =~= records_view(old_out) + decode_records(rest));
        offset = body_end;
    }
    assert(decode_records(buffer@.subrange(offset as int, len as int)) =~= Seq::<(u64, Seq<u8>)>::empty());
    assert(records_view(out@) + Seq::<(u64, Seq<u8>)>::empty() =~= records_view(out@));
    out
}

/// The block map a run of records stands for: a later record of a block
/// replaces an earlier one.
pub open spec fn records_to_map(records: Seq<(u64, Seq<u8>)>) -> Map<u64, Seq<u8>>
    decreases records.len(),
{
    if records.len() == 0 {
        Map::empty()
    } else {
        records_to_map(records.drop_last()).insert(records.last().0, records.last().1)
    }
}

/// A block map taken by the contents of its buffers.
pub open spec fn block_map_view(m: Map<u64, Vec<u8>>) -> Map<u64, Seq<u8>> {
    m.map_values(|v: Vec<u8>| v@)
}

/// The block map of a snapshot data file: each block number with the data of
/// its last record.
pub fn blocks_map_from_bytes(buffer: &[u8]) -> (m: HashMap<u64, Vec<u8>>)
    ensures
        block_map_view(m@) == records_to_map(decode_records(buffer@)),
{
    let records = decode_block_records(buffer);
    let ghost rv = records_view(records@);
    let mut m: HashMap<u64, Vec<u8>> = HashMap::new();
    let n = records.len();
    let mut i: usize = 0;
    while i < n
        invariant
            n == records@.len(),
            rv == records_view(records@),
            0 <= i <= n,
            block_map_view(m@) == records_to_map(rv.take(i as int)),
        decreases n - i,
    {
        let block_number = records[i].0;
        let data = slice_to_vec(records[i].1.as_slice());
        let ghost old_m = m@;
        m.insert(block_number, data);
        proof {
            assert(rv.take(i as int + 1).drop_last() =~= rv.take(i as int));
            assert(block_map_view(m@) =~= block_map_view(old_m).insert(block_number, data@));
        }
        i = i + 1;
    }
    assert(rv.take(n as int) =~= rv);
    m
}

} // verus!
