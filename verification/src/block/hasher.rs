//! Content hashes of blocks (BLAKE3, 32 bytes).

use vstd::prelude::*;

use crate::utils::ids::is_lower_hex;

verus! {

/// The 32-byte BLAKE3 digest of `data`.
pub uninterp spec fn blake3_digest(data: Seq<u8>) -> Seq<u8>;

/// `blake3::hash(data).as_bytes()`: the BLAKE3 digest of `data`, 32 bytes.
/// The digest is a function of the bytes alone; what it is on given bytes is
/// left to the name `blake3_digest`.
#[verifier::external_body]
pub(crate) fn blake3_hash(data: &[u8]) -> (h: [u8; 32])
    ensures
        h@ == blake3_digest(data@),
{
    *blake3::hash(data).as_bytes()
}

/// The hash of one block, with its number and length.
#[derive(Debug, Clone, PartialEq, Eq, Hash)]
pub struct BlockHash {
    pub block_number: u64,
    pub hash: [u8; 32],
    pub block_size: u32,
}

impl BlockHash {
    /// A field-by-field copy.
    pub fn duplicate(&self) -> (r: BlockHash)
        ensures
            r == *self,
    {
        BlockHash { block_number: self.block_number, hash: self.hash, block_size: self.block_size }
    }
}

/// Hashes block contents.
pub struct BlockHasher;

/// The record `hash_block_with_number` makes: the length is kept modulo 2^32,
/// as a cast to `u32` keeps it.
pub open spec fn block_hash_of(block_number: u64, data: Seq<u8>) -> (u64, Seq<u8>, u32) {
    (block_number, blake3_digest(data), data.len() as u32)
}

impl BlockHasher {
    pub fn new() -> (r: Self) {
        BlockHasher
    }

    /// The hash of `data` as block number 0.
    pub fn hash_block(&self, data: &[u8]) -> (r: BlockHash)
        ensures
            (r.block_number, r.hash@, r.block_size) == block_hash_of(0, data@),
    {
        self.hash_block_with_number(0, data)
    }

    /// The hash of `data` as block `block_number`.
    pub fn hash_block_with_number(&self, block_number: u64, data: &[u8]) -> (r: BlockHash)
        ensures
            (r.block_number, r.hash@, r.block_size) == block_hash_of(block_number, data@),
    {
        let hash = blake3_hash(data);
        BlockHash { block_number, hash, block_size: data.len() as u32 }
    }

    /// The 32 bytes of the BLAKE3 digest of `data`.
    pub fn hash_raw(data: &[u8]) -> (r: [u8; 32])
        ensures
            r@ == blake3_digest(data@),
    {
        blake3_hash(data)
    }

    /// Whether `data` hashes to the digest recorded in `expected`.
    pub fn verify_block(&self, data: &[u8], expected: &BlockHash) -> (r: bool)
        ensures
            r == (blake3_digest(data@) == expected.hash@),
    {
        let computed = blake3_hash(data);
        bytes_equal(&computed, &expected.hash)
    }
}

/// Whether two digests hold the same bytes.
pub fn bytes_equal(a: &[u8; 32], b: &[u8; 32]) -> (r: bool)
    ensures
        r == (a@ == b@),
{
    let mut i: usize = 0;
    while i < 32
        invariant
            i <= 32,
            a@.len() == 32,
            b@.len() == 32,
            forall|k: int| 0 <= k < i ==> a@[k] == b@[k],
        decreases 32 - i,
    {
        if a[i] != b[i] {
            return false;
        }
        i = i + 1;
    }
    assert(a@ =~= b@);
    true
}

/// The lowercase hexadecimal digit for `d`, where `d < 16`.
pub open spec fn hex_digit(d: int) -> char {
    if d < 10 {
        ((d + 48) as u8) as char
    } else {
        ((d + 87) as u8) as char
    }
}

/// Lowercase hexadecimal text of `bytes`, two digits per byte, high nibble
/// first.
pub open spec fn hex_text(bytes: Seq<u8>) -> Seq<char>
    decreases bytes.len(),
{
    if bytes.len() == 0 {
        Seq::empty()
    } else {
        hex_text(bytes.drop_last()).push(hex_digit(bytes.last() as int / 16)).push(hex_digit(bytes.last() as int % 16))
    }
}

/// Hex text is two lowercase hex digits per byte.
pub proof fn lemma_hex_text(bytes: Seq<u8>)
    ensures
        hex_text(bytes).len() == 2 * bytes.len(),
        forall|i: int| 0 <= i < hex_text(bytes).len() ==> is_lower_hex(#[trigger] hex_text(bytes)[i]),
    decreases bytes.len(),
{
    if bytes.len() > 0 {
        lemma_hex_text(bytes.drop_last());
        let b = bytes.last() as int;
        assert(is_lower_hex(hex_digit(b / 16)));
        assert(is_lower_hex(hex_digit(b % 16)));
    }
}

fn hex_char(d: u8) -> (c: char)
    requires
        d < 16,
    ensures
        c == hex_digit(d as int),
{
    if d < 10 {
        ((d + 48) as u8) as char
    } else {
        ((d + 87) as u8) as char
    }
}

/// The BLAKE3 digest of `data` as 64 lowercase hexadecimal digits.
pub fn compute_checksum(data: &[u8]) -> (s: String)
    ensures
        s@ == hex_text(blake3_digest(data@)),
        s@.len() == 64,
        forall|i: int| 0 <= i < 64 ==> is_lower_hex(#[trigger] s@[i]),
{
    let digest = blake3_hash(data);
    let mut s = String::new();
    let mut i: usize = 0;
    while i < 32
        invariant
            i <= 32,
            digest@.len() == 32,
            s@ == hex_text(digest@.take(i as int)),
        decreases 32 - i,
    {
        let b = digest[i];
        crate::utils::text::push_char(&mut s, hex_char(b / 16));
        crate::utils::text::push_char(&mut s, hex_char(b % 16));
        assert(digest@.take(i as int + 1).drop_last() =~= digest@.take(i as int));
        i = i + 1;
    }
    assert(digest@.take(32) =~= digest@);
    proof {
        lemma_hex_text(digest@);
    }
    s
}

} // verus!
