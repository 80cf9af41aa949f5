use vstd::prelude::*;

verus! {

/// Slash rate of a first offense, in basis points (10%).
pub const BASE_SLASH_BPS: u32 = 1000;

/// Extra slash rate per earlier offense, in basis points (+5%).
pub const PROGRESSIVE_SLASH_BPS: u32 = 500;

/// Highest slash rate, in basis points (100%).
pub const MAX_SLASH_BPS: u32 = 10000;

/// The slash rate for a service with `offense_count` earlier offenses:
/// 10% for the first offense, 5% more for each later one, at most 100%.
pub open spec fn slash_bps(offense_count: int) -> int {
    let raw = BASE_SLASH_BPS + offense_count * PROGRESSIVE_SLASH_BPS;
    if raw < MAX_SLASH_BPS { raw } else { MAX_SLASH_BPS as int }
}

/// Progressive slash rate, in basis points, from the offense history.
pub fn compute_slash_bps(offense_count: u32) -> (bps: u32)
    ensures
        bps == slash_bps(offense_count as int),
{
    // From 18 earlier offenses on the rate is at its cap.
    if offense_count >= 18 {
        MAX_SLASH_BPS
    } else {
        BASE_SLASH_BPS + offense_count * PROGRESSIVE_SLASH_BPS
    }
}

} // verus!
