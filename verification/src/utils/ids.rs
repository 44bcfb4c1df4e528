//! Random identifiers.

use vstd::prelude::*;

verus! {

pub open spec fn is_lower_hex(c: char) -> bool {
    ('0' <= c && c <= '9') || ('a' <= c && c <= 'f')
}

/// The hyphenated text form of a UUID: 32 lowercase hex digits in groups of
/// 8, 4, 4, 4 and 12, joined by `-`.
pub open spec fn is_hyphenated_uuid(s: Seq<char>) -> bool {
    &&& s.len() == 36
    &&& forall|i: int| 0 <= i < 36 ==> (if i == 8 || i == 13 || i == 18 || i == 23 {
        s[i] == '-'
    } else {
        is_lower_hex(#[trigger] s[i])
    })
}

/// `uuid::Uuid::new_v4().to_string()`: a random version-4 UUID in its
/// hyphenated lowercase form (uuid's `Display` writes `as_hyphenated` in
/// lowercase hex), with the version digit 4 and the variant digit one of
/// 8, 9, a, b (`new_v4` masks those bits in). Which UUID comes back is random and is not stated; the
/// random bytes come from the operating system, and the call panics if it
/// cannot supply them, which no input can cause or prevent.
#[verifier::external_body]
pub(crate) fn new_uuid_string() -> (s: String)
    ensures
        is_hyphenated_uuid(s@),
        s@[14] == '4',
        s@[19] == '8' || s@[19] == '9' || s@[19] == 'a' || s@[19] == 'b',
{
    uuid::Uuid::new_v4().to_string()
}

} // verus!
