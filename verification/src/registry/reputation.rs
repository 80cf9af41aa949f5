//! Reputation in basis points: full (100%) at registration, cut by each
//! slash, and recovering linearly with time since the last slash.

use crate::registry::types::ServiceInfo;
use vstd::prelude::*;

verus! {

/// Full reputation: 100.00%, in basis points.
pub const DEFAULT_REPUTATION: u32 = 10000;

/// Reputation lost per slash (10%).
pub const SLASH_REPUTATION_PENALTY: u32 = 1000;

/// Reputation regained per whole day since the last slash (0.5%).
pub const REPUTATION_RECOVERY_RATE: u32 = 50;

/// Seconds in a day.
pub const SECONDS_PER_DAY: u64 = 86400;

/// Whole days from `last_slash` to `now` (none when `now` is earlier).
pub open spec fn days_since(last_slash: int, now: int) -> int {
    let elapsed = if now >= last_slash { now - last_slash } else { 0 };
    elapsed / (SECONDS_PER_DAY as int)
}

/// Reputation shown at `now` for a stored reputation `stored` whose last
/// slash happened at `last_slash` (0 when never slashed): the stored value
/// plus 0.5% for each whole day since the last slash, at most full
/// reputation.
pub open spec fn effective_reputation_at(stored: int, last_slash: int, now: int) -> int {
    let recovered = if stored >= DEFAULT_REPUTATION || last_slash == 0 {
        stored
    } else {
        stored + (REPUTATION_RECOVERY_RATE as int) * days_since(last_slash, now)
    };
    if recovered < DEFAULT_REPUTATION { recovered } else { DEFAULT_REPUTATION as int }
}

/// Reputation of `info` at time `now`, with recovery since its last slash.
pub fn effective_reputation(info: &ServiceInfo, now: u64) -> (rep: u32)
    ensures
        rep == effective_reputation_at(info.reputation as int, info.last_slash_time as int, now as int),
{
    if info.reputation >= DEFAULT_REPUTATION || info.last_slash_time == 0 {
        return if info.reputation < DEFAULT_REPUTATION { info.reputation } else { DEFAULT_REPUTATION };
    }
    let elapsed_days = now.saturating_sub(info.last_slash_time) / SECONDS_PER_DAY;
    // From 200 days on the recovery alone restores full reputation.
    if elapsed_days >= 200 {
        return DEFAULT_REPUTATION;
    }
    let recovered = info.reputation + (elapsed_days as u32) * REPUTATION_RECOVERY_RATE;
    if recovered < DEFAULT_REPUTATION { recovered } else { DEFAULT_REPUTATION }
}

/// Reputation after a slash at `now`: the recovered reputation less the
/// penalty, never below zero.
pub open spec fn reputation_after_slash(stored: int, last_slash: int, now: int) -> int {
    let current = effective_reputation_at(stored, last_slash, now);
    if current > SLASH_REPUTATION_PENALTY { current - SLASH_REPUTATION_PENALTY } else { 0 }
}

/// The shown reputation is never above full reputation, and never below the
/// stored reputation (capped at full).
pub proof fn law_reputation_within_bounds(stored: int, last_slash: int, now: int)
    requires
        stored >= 0,
    ensures
        effective_reputation_at(stored, last_slash, now) <= DEFAULT_REPUTATION,
        effective_reputation_at(stored, last_slash, now) >= (if stored < DEFAULT_REPUTATION { stored } else { DEFAULT_REPUTATION as int }),
{
    assert(days_since(last_slash, now) >= 0);
}

/// Reputation only recovers as time passes: the shown reputation at a later
/// time is at least the shown reputation at an earlier one.
pub proof fn law_reputation_recovers_over_time(stored: int, last_slash: int, t1: int, t2: int)
    requires
        stored >= 0,
        t1 <= t2,
    ensures
        effective_reputation_at(stored, last_slash, t1) <= effective_reputation_at(stored, last_slash, t2),
{
    let e1 = if t1 >= last_slash { t1 - last_slash } else { 0 };
    let e2 = if t2 >= last_slash { t2 - last_slash } else { 0 };
    assert(e1 <= e2);
    assert(e1 / (SECONDS_PER_DAY as int) <= e2 / (SECONDS_PER_DAY as int)) by (nonlinear_arith)
        requires
            0 <= e1 <= e2,
    ;
    assert(days_since(last_slash, t1) <= days_since(last_slash, t2));
    assert(50 * days_since(last_slash, t1) <= 50 * days_since(last_slash, t2));
}

/// A slash takes the penalty off the recovered reputation, and never takes
/// it below zero.
pub proof fn law_slash_lowers_reputation(stored: int, last_slash: int, now: int)
    requires
        stored >= 0,
    ensures
        0 <= reputation_after_slash(stored, last_slash, now) <= effective_reputation_at(stored, last_slash, now),
        effective_reputation_at(stored, last_slash, now) >= SLASH_REPUTATION_PENALTY ==> reputation_after_slash(
            stored,
            last_slash,
            now,
        ) == effective_reputation_at(stored, last_slash, now) - SLASH_REPUTATION_PENALTY,
{
    law_reputation_within_bounds(stored, last_slash, now);
}

} // verus!
