//! Command-line values that need checking beyond their type.

use std::path::PathBuf;
use vstd::prelude::*;

use crate::config::validator::is_pow2;
use crate::utils::errors::HelixError;
use crate::utils::number::{parse_u32, parsed_u32};

verus! {

#[verifier::external_type_specification]
#[verifier::external_body]
pub struct ExPathBuf(PathBuf);

/// Arguments as a front end gathers them before a command runs.
pub struct ParsedArgs {
    pub source: Option<String>,
    pub destination: Option<String>,
    pub config_path: Option<PathBuf>,
    pub block_size: u32,
    pub compression_level: i32,
    pub encryption_key: Option<String>,
    pub verbose: bool,
}

impl Default for ParsedArgs {
    fn default() -> (r: Self)
        ensures
            r.source is None,
            r.destination is None,
            r.config_path is None,
            r.block_size == 4096,
            r.compression_level == 3,
            r.encryption_key is None,
            !r.verbose,
    {
        ParsedArgs {
            source: None,
            destination: None,
            config_path: None,
            block_size: 4096,
            compression_level: 3,
            encryption_key: None,
            verbose: false,
        }
    }
}

/// A block size given on the command line: a decimal number that is a power
/// of two between 512 bytes and 1 MiB.
pub fn parse_block_size(size_str: &str) -> (r: Result<u32, HelixError>)
    ensures
        match parsed_u32(size_str@) {
            None => r matches Err(HelixError::InvalidInput(m))
                && m@ == "Invalid block size: must be a positive integer"@,
            Some(size) => if !is_pow2(size as nat) {
                r matches Err(HelixError::InvalidInput(m))
                    && m@ == "Block size must be a power of two (e.g., 512, 4096, 8192)"@
            } else if size < 512 || size > 1048576 {
                r matches Err(HelixError::InvalidInput(m))
                    && m@ == "Block size must be between 512 bytes and 1 MiB"@
            } else {
                r == Ok::<u32, HelixError>(size)
            },
        },
{
    let size = match parse_u32(size_str) {
        Some(v) => v,
        None => {
            return Err(HelixError::InvalidInput(
                String::from_str("Invalid block size: must be a positive integer"),
            ));
        },
    };
    if !crate::config::validator::is_power_of_two(size) {
        return Err(HelixError::InvalidInput(
            String::from_str("Block size must be a power of two (e.g., 512, 4096, 8192)"),
        ));
    }
    if size < 512 || size > 1_048_576 {
        return Err(HelixError::InvalidInput(
            String::from_str("Block size must be between 512 bytes and 1 MiB"),
        ));
    }
    Ok(size)
}

/// The size suffixes, in the order they are tried, with their multipliers.
pub open spec fn size_suffixes() -> Seq<(Seq<char>, u64)> {
    seq![
        ("ki"@, 1024u64),
        ("mi"@, 1048576u64),
        ("gi"@, 1073741824u64),
        ("ti"@, 1099511627776u64),
        ("k"@, 1000u64),
        ("m"@, 1000000u64),
        ("g"@, 1000000000u64),
        ("t"@, 1000000000000u64),
        ("kb"@, 1000u64),
        ("mb"@, 1000000u64),
        ("gb"@, 1000000000u64),
        ("tb"@, 1000000000000u64),
    ]
}

/// `s` ends with `suffix`.
pub open spec fn ends_with(s: Seq<char>, suffix: Seq<char>) -> bool {
    suffix.len() <= s.len() && s.subrange(s.len() - suffix.len(), s.len() as int) == suffix
}

/// The first suffix of the list from position `from` on that `s` ends with:
/// the text before it and the suffix's multiplier.
pub open spec fn split_suffix_from(s: Seq<char>, from: int) -> Option<(Seq<char>, u64)>
    decreases size_suffixes().len() - from,
{
    if from < 0 || from >= size_suffixes().len() {
        None
    } else if ends_with(s, size_suffixes()[from].0) {
        Some((s.subrange(0, s.len() - size_suffixes()[from].0.len()), size_suffixes()[from].1))
    } else {
        split_suffix_from(s, from + 1)
    }
}

fn str_ends_with(s: &str, suffix: &str) -> (r: bool)
    ensures
        r == ends_with(s@, suffix@),
{
    let n = s.unicode_len();
    let m = suffix.unicode_len();
    if m > n {
        return false;
    }
    let mut i: usize = 0;
    while i < m
        invariant
            n == s@.len(),
            m == suffix@.len(),
            m <= n,
            i <= m,
            forall|k: int| 0 <= k < i ==> s@[n - m + k] == suffix@[k],
        decreases m - i,
    {
        if s.get_char(n - m + i) != suffix.get_char(i) {
            assert(s@.subrange(n - m, n as int)[i as int] != suffix@[i as int]);
            return false;
        }
        i = i + 1;
    }
    assert(s@.subrange(n - m, n as int) =~= suffix@);
    true
}

fn prefix_chars(s: &str, len: usize) -> (r: String)
    requires
        len <= s@.len(),
    ensures
        r@ == s@.subrange(0, len as int),
{
    let mut r = String::new();
    let mut i: usize = 0;
    while i < len
        invariant
            len <= s@.len(),
            i <= len,
            r@ == s@.subrange(0, i as int),
        decreases len - i,
    {
        crate::utils::text::push_char(&mut r, s.get_char(i));
        assert(s@.subrange(0, i as int + 1) =~= s@.subrange(0, i as int).push(s@[i as int]));
        i = i + 1;
    }
    r
}

/// Splits a size text (already trimmed and lower-cased) at its unit: the
/// first of `ki`, `mi`, `gi`, `ti`, `k`, `m`, `g`, `t`, `kb`, `mb`, `gb`,
/// `tb` that it ends with gives the number text before it and the unit's
/// multiplier; `None` when it ends with none of them.
pub fn split_size_suffix(size: &str) -> (r: Option<(String, u64)>)
    ensures
        match split_suffix_from(size@, 0) {
            Some((num, mult)) => r matches Some((t, m)) && t@ == num && m == mult,
            None => r is None,
        },
{
    let suffixes: [&str; 12] = ["ki", "mi", "gi", "ti", "k", "m", "g", "t", "kb", "mb", "gb", "tb"];
    let multipliers: [u64; 12] = [
        1024,
        1048576,
        1073741824,
        1099511627776,
        1000,
        1000000,
        1000000000,
        1000000000000,
        1000,
        1000000,
        1000000000,
        1000000000000,
    ];
    proof {
        reveal_strlit("ki");
        reveal_strlit("mi");
        reveal_strlit("gi");
        reveal_strlit("ti");
        reveal_strlit("k");
        reveal_strlit("m");
        reveal_strlit("g");
        reveal_strlit("t");
        reveal_strlit("kb");
        reveal_strlit("mb");
        reveal_strlit("gb");
        reveal_strlit("tb");
    }
    assert(forall|k: int| 0 <= k < 12 ==> (#[trigger] suffixes@[k])@ == size_suffixes()[k].0
        && multipliers@[k] == size_suffixes()[k].1);
    let n = size.unicode_len();
    let mut i: usize = 0;
    while i < 12
        invariant
            i <= 12,
            n == size@.len(),
            forall|k: int| 0 <= k < 12 ==> (#[trigger] suffixes@[k])@ == size_suffixes()[k].0
                && multipliers@[k] == size_suffixes()[k].1,
            split_suffix_from(size@, 0) == split_suffix_from(size@, i as int),
        decreases 12 - i,
    {
        let suffix = suffixes[i];
        if str_ends_with(size, suffix) {
            let m = suffix.unicode_len();
            let num = prefix_chars(size, n - m);
            return Some((num, multipliers[i]));
        }
        i = i + 1;
    }
    None
}

} // verus!
