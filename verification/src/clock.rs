//! The one reading of the wall clock that the library makes.

use crate::rfc3339::is_rfc3339;
use vstd::prelude::*;

verus! {

/// Relies on chrono's `Utc::now().to_rfc3339()`: the current instant,
/// written as an RFC 3339 date-time with a numeric UTC offset; years
/// outside 0000..=9999 carry an explicit sign, as ISO 8601 asks.  Which
/// instant comes back depends on the clock, so nothing more is promised.
#[verifier::external_body]
pub(crate) fn now_rfc3339() -> (r: String)
    ensures
        is_rfc3339(r@),
{
    chrono::Utc::now().to_rfc3339()
}

} // verus!
