//! The current time, as the library records it.

use vstd::prelude::*;

verus! {

/// `chrono::Utc::now().timestamp()`: seconds since the Unix epoch, read from
/// the system clock. Nothing is claimed of the value: it depends on the clock.
#[verifier::external_body]
pub(crate) fn now_unix_seconds() -> (t: i64) {
    chrono::Utc::now().timestamp()
}

/// `chrono::Utc::now().to_rfc3339()`: the current time as RFC 3339 text.
/// Nothing is claimed of the text: it depends on the clock.
#[verifier::external_body]
pub(crate) fn now_rfc3339() -> (t: String) {
    chrono::Utc::now().to_rfc3339()
}

} // verus!
