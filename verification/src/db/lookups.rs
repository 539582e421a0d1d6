//! The negative cache of failed video look-ups: a failed URL is not asked again before
//! its row expires.

use vstd::prelude::*;
use crate::time::naive::UtcTime;
use crate::time::resolve::{utc_before, utc_lt};

verus! {

/// Whether a cached failure still holds at `now`: its row exists, its `expires_at` could
/// be read (`None` for a missing row or an unreadable time) and lies strictly after `now`.
pub fn is_active(expires_at: Option<UtcTime>, now: UtcTime) -> (r: bool)
    ensures
        r == (expires_at matches Some(e) && utc_lt(now, e)),
{
    match expires_at {
        None => false,
        Some(e) => utc_before(now, e),
    }
}

} // verus!
