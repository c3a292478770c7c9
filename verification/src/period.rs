//! The time-period resolver: a named window maps to an offset in seconds
//! from the current time. Unknown names map to an offset of zero.

use vstd::prelude::*;
use crate::text::str_eq;

verus! {

/// The offset in seconds that a period name denotes. Every name maps to a
/// defined value; a name outside the fixed set (including "AllTime", which
/// bypasses the offset entirely) maps to zero.
pub open spec fn spec_period_offset(p: Seq<char>) -> int {
    if p == "Last24Hours"@ {
        86400
    } else if p == "Last7Days"@ {
        604800
    } else if p == "Last30Days"@ {
        2592000
    } else if p == "Last3Months"@ {
        7776000
    } else if p == "Last6Months"@ {
        15552000
    } else if p == "Last12Months"@ {
        31536000
    } else {
        0
    }
}

/// The largest offset any period name denotes: twelve months of seconds.
pub proof fn lemma_period_offset_bounds(p: Seq<char>)
    ensures
        0 <= spec_period_offset(p) <= 31536000,
{
}

/// Resolves a period name to its offset in seconds. Total over all strings:
/// the six supported names map to their fixed windows, anything else to 0.
pub fn period_offset_seconds(period: &str) -> (r: u64)
    ensures
        r == spec_period_offset(period@),
{
    if str_eq(period, "Last24Hours") {
        86400u64
    } else if str_eq(period, "Last7Days") {
        604800u64
    } else if str_eq(period, "Last30Days") {
        2592000u64
    } else if str_eq(period, "Last3Months") {
        7776000u64
    } else if str_eq(period, "Last6Months") {
        15552000u64
    } else if str_eq(period, "Last12Months") {
        31536000u64
    } else {
        0u64
    }
}

} // verus!
