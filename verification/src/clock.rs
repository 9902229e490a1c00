//! The creation-time snapshot stored in every block. The chain logic treats
//! the timestamp as opaque text; only the clock itself is outside code.

use chrono::Utc;
use vstd::prelude::*;

verus! {

/// Relies on `chrono::Utc::now` and `chrono::DateTime::to_rfc3339`: the
/// current time as an RFC 3339 string. The value depends on the wall clock,
/// so nothing is promised beyond the string being non-empty.
#[verifier::external_body]
pub(crate) fn now_rfc3339() -> (r: String)
    ensures
        r@.len() > 0,
{
    Utc::now().to_rfc3339()
}

} // verus!
