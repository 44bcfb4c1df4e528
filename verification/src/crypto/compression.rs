//! zstd compression of block data.

use vstd::prelude::*;

use crate::utils::errors::HelixError;

verus! {

/// The zstd frame that compressing `data` at `level` produces.
pub uninterp spec fn zstd_frame(data: Seq<u8>, level: i32) -> Seq<u8>;

/// `zstd::stream::encode_all(data, level)`: a zstd frame holding `data`,
/// compressed at `level`. Compression is deterministic, so the frame is
/// named by its inputs. It reads from memory and writes to memory, and zstd
/// accepts every level from 1 to 22, so with such a level it does not fail;
/// running out of memory (a failed context allocation panics, a failed
/// working-space allocation is reported as an error) is the machine's
/// failure and is not modelled.
#[verifier::external_body]
fn zstd_encode(data: &[u8], level: i32) -> (r: Result<Vec<u8>, std::io::Error>)
    ensures
        1 <= level <= 22 ==> r is Ok,
        r matches Ok(v) ==> v@ == zstd_frame(data@, level),
{
    zstd::stream::encode_all(data, level)
}

/// What decoding `data` as a zstd stream gives: the bytes it holds, or
/// nothing when it is not a valid stream.
pub uninterp spec fn zstd_decoded(data: Seq<u8>) -> Option<Seq<u8>>;

/// `zstd::stream::decode_all(data)`: the bytes a zstd stream holds, a
/// function of the input (an error when it is not a valid stream). Given a
/// frame that compressing some bytes at a valid level (1 to 22) produced, it
/// gives back exactly those bytes; which other inputs decode, and to what,
/// is left to the name `zstd_decoded`.
#[verifier::external_body]
fn zstd_decode(data: &[u8]) -> (r: Result<Vec<u8>, std::io::Error>)
    ensures
        match zstd_decoded(data@) {
            Some(d) => r matches Ok(v) && v@ == d,
            None => r is Err,
        },
        r is Ok || !exists|d: Seq<u8>, l: i32| 1 <= l <= 22 && data@ == #[trigger] zstd_frame(d, l),
        r matches Ok(v) ==> forall|d: Seq<u8>, l: i32|
            1 <= l <= 22 && data@ == #[trigger] zstd_frame(d, l) ==> v@ == d,
{
    zstd::stream::decode_all(data)
}

/// `level` limited to zstd's range 1 to 22.
pub open spec fn clamped_level(level: i32) -> i32 {
    if level < 1 {
        1
    } else if level > 22 {
        22
    } else {
        level
    }
}

/// Compresses and decompresses block data with zstd at a fixed level.
pub struct Compressor {
    level: i32,
}

impl Compressor {
    /// The level is always one zstd accepts.
    #[verifier::type_invariant]
    spec fn level_in_range(self) -> bool {
        1 <= self.level <= 22
    }

    /// The level in use.
    pub closed spec fn spec_level(&self) -> i32 {
        self.level
    }

    /// A compressor at `level`, limited to 1 to 22.
    pub fn new(level: i32) -> (r: Self)
        ensures
            r.spec_level() == clamped_level(level),
            1 <= r.spec_level() <= 22,
    {
        let level = if level < 1 {
            1
        } else if level > 22 {
            22
        } else {
            level
        };
        Compressor { level }
    }

    /// One zstd frame holding `data`.
    pub fn compress(&self, data: &[u8]) -> (r: Result<Vec<u8>, HelixError>)
        ensures
            r matches Ok(v) && v@ == zstd_frame(data@, self.spec_level()),
    {
        proof {
            use_type_invariant(self);
        }
        match zstd_encode(data, self.level) {
            Ok(v) => Ok(v),
            Err(e) => Err(HelixError::Io(e)),
        }
    }

    /// The bytes a zstd frame holds: for a frame that `compress` made from
    /// some bytes, at any level, exactly those bytes.
    pub fn decompress(&self, data: &[u8]) -> (r: Result<Vec<u8>, HelixError>)
        ensures
            forall|d: Seq<u8>, l: i32|
                1 <= l <= 22 && data@ == #[trigger] zstd_frame(d, l) ==> (r matches Ok(v) && v@ == d),
            match zstd_decoded(data@) {
                Some(d) => r matches Ok(v) && v@ == d,
                None => r matches Err(e) && e is Io,
            },
    {
        match zstd_decode(data) {
            Ok(v) => Ok(v),
            Err(e) => Err(HelixError::Io(e)),
        }
    }

    /// Each block compressed, with its uncompressed length.
    pub fn compress_blocks(&self, blocks: &[Vec<u8>]) -> (r: Result<Vec<(usize, Vec<u8>)>, HelixError>)
        ensures
            r matches Ok(v) && v@.len() == blocks@.len() && forall|i: int| 0 <= i < blocks@.len() ==>
                (#[trigger] v@[i]).0 == blocks@[i]@.len() && v@[i].1@ == zstd_frame(blocks@[i]@, self.spec_level()),
    {
        let mut out: Vec<(usize, Vec<u8>)> = Vec::new();
        let n = blocks.len();
        let mut i: usize = 0;
        while i < n
            invariant
                n == blocks@.len(),
                i <= n,
                out@.len() == i,
                forall|j: int| 0 <= j < i ==> (#[trigger] out@[j]).0 == blocks@[j]@.len()
                    && out@[j].1@ == zstd_frame(blocks@[j]@, self.spec_level()),
            decreases n - i,
        {
            let compressed = match self.compress(blocks[i].as_slice()) {
                Ok(c) => c,
                Err(e) => {
                    return Err(e);
                },
            };
            out.push((blocks[i].len(), compressed));
            i = i + 1;
        }
        Ok(out)
    }

    /// The level in use.
    pub fn level(&self) -> (r: i32)
        ensures
            r == self.spec_level(),
    {
        self.level
    }
}

} // verus!
