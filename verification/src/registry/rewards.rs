//! Reward-per-token accounting: a reward pool is paid out at a constant rate
//! over a period, and each unit of bond earns an equal share of it.

use vstd::prelude::*;

verus! {

/// Fixed-point scale of the reward-per-token value (10^18).
pub const PRECISION: i128 = 1_000_000_000_000_000_000;

/// Whether an integer fits in `i128`.
pub open spec fn fits_i128(x: int) -> bool {
    i128::MIN <= x <= i128::MAX
}

/// The last moment at which the current reward period pays out: `now`, or
/// the end of the period if it has passed.
pub open spec fn last_time_applicable(now: int, end: int) -> int {
    if now < end { now } else { end }
}

/// Reward per unit of bond accrued at `now`, given the total bond, the value
/// stored at `last_update`, the payout rate and the end of the period.
pub open spec fn reward_per_token_at(
    total: int,
    stored: int,
    rate: int,
    last_update: int,
    end: int,
    now: int,
) -> int {
    if total == 0 {
        stored
    } else {
        let applicable = last_time_applicable(now, end);
        if applicable <= last_update {
            stored
        } else {
            stored + (applicable - last_update) * ((rate * (PRECISION as int)) / total)
        }
    }
}

/// Whether the reward-per-token computation at `now` stays within `i128`.
pub open spec fn reward_per_token_fits(
    total: int,
    stored: int,
    rate: int,
    last_update: int,
    end: int,
    now: int,
) -> bool {
    let applicable = last_time_applicable(now, end);
    (total != 0 && applicable > last_update) ==> {
        &&& fits_i128(rate * (PRECISION as int))
        &&& fits_i128((applicable - last_update) * ((rate * (PRECISION as int)) / total))
        &&& fits_i128(stored + (applicable - last_update) * ((rate * (PRECISION as int)) / total))
    }
}

/// Rewards owed to a bond of `bond` that last settled at `paid` and holds
/// `accrued` unclaimed, once the reward per token has reached `rpt`.
pub open spec fn earned_amount(bond: int, rpt: int, paid: int, accrued: int) -> int {
    bond * (rpt - paid) / (PRECISION as int) + accrued
}

/// Whether the computation of [`earned_amount`] stays within `i128`.
pub open spec fn earned_fits(bond: int, rpt: int, paid: int, accrued: int) -> bool {
    &&& fits_i128(rpt - paid)
    &&& fits_i128(bond * (rpt - paid))
    &&& fits_i128(bond * (rpt - paid) / (PRECISION as int) + accrued)
}

/// Reward per unit of bond at `now` (see [`reward_per_token_at`]).
pub fn reward_per_token_value(
    total: i128,
    stored: i128,
    rate: i128,
    last_update: u64,
    end: u64,
    now: u64,
) -> (rpt: i128)
    requires
        total >= 0,
        rate >= 0,
        reward_per_token_fits(
            total as int,
            stored as int,
            rate as int,
            last_update as int,
            end as int,
            now as int,
        ),
    ensures
        rpt == reward_per_token_at(
            total as int,
            stored as int,
            rate as int,
            last_update as int,
            end as int,
            now as int,
        ),
{
    if total == 0 {
        return stored;
    }
    let last_applicable = if now < end { now } else { end };
    if last_applicable <= last_update {
        return stored;
    }
    let elapsed = (last_applicable - last_update) as i128;
    let scaled = rate * PRECISION;
    let rate_per_token = scaled / total;
    stored + elapsed * rate_per_token
}

/// Rewards owed to a bond (see [`earned_amount`]).
pub fn earned_value(bond: i128, rpt: i128, paid: i128, accrued: i128) -> (e: i128)
    requires
        bond >= 0,
        rpt >= paid,
        earned_fits(bond as int, rpt as int, paid as int, accrued as int),
    ensures
        e == earned_amount(bond as int, rpt as int, paid as int, accrued as int),
{
    let delta = rpt - paid;
    assert(bond * delta >= 0) by (nonlinear_arith)
        requires
            bond >= 0,
            delta >= 0,
    ;
    bond * delta / PRECISION + accrued
}

/// Whether the reward per token at `now` can be computed within `i128`
/// (see [`reward_per_token_fits`]).
pub fn reward_per_token_checked(
    total: i128,
    stored: i128,
    rate: i128,
    last_update: u64,
    end: u64,
    now: u64,
) -> (ok: bool)
    requires
        total >= 0,
        rate >= 0,
    ensures
        ok == reward_per_token_fits(
            total as int,
            stored as int,
            rate as int,
            last_update as int,
            end as int,
            now as int,
        ),
{
    if total == 0 {
        return true;
    }
    let last_applicable = if now < end { now } else { end };
    if last_applicable <= last_update {
        return true;
    }
    let elapsed = (last_applicable - last_update) as i128;
    match rate.checked_mul(PRECISION) {
        None => false,
        Some(scaled) => {
            let rate_per_token = scaled / total;
            match elapsed.checked_mul(rate_per_token) {
                None => false,
                Some(increase) => stored.checked_add(increase).is_some(),
            }
        },
    }
}

/// Whether the rewards owed to a bond can be computed within `i128` (see
/// [`earned_fits`]).
pub fn earned_checked(bond: i128, rpt: i128, paid: i128, accrued: i128) -> (ok: bool)
    requires
        bond >= 0,
        rpt >= paid,
    ensures
        ok == earned_fits(bond as int, rpt as int, paid as int, accrued as int),
{
    match rpt.checked_sub(paid) {
        None => false,
        Some(delta) => match bond.checked_mul(delta) {
            None => false,
            Some(product) => {
                assert(product >= 0) by (nonlinear_arith)
                    requires
                        product == bond * delta,
                        bond >= 0,
                        delta >= 0,
                ;
                (product / PRECISION).checked_add(accrued).is_some()
            },
        },
    }
}

/// The reward per token never decreases while the rate is not negative.
pub proof fn lemma_reward_per_token_monotone(
    total: int,
    stored: int,
    rate: int,
    last_update: int,
    end: int,
    now: int,
)
    requires
        total >= 0,
        rate >= 0,
    ensures
        reward_per_token_at(total, stored, rate, last_update, end, now) >= stored,
{
    if total != 0 {
        let applicable = last_time_applicable(now, end);
        if applicable > last_update {
            assert(rate * (PRECISION as int) >= 0) by (nonlinear_arith)
                requires
                    rate >= 0,
            ;
            assert((rate * (PRECISION as int)) / total >= 0) by (nonlinear_arith)
                requires
                    rate * (PRECISION as int) >= 0,
                    total > 0,
            ;
            assert((applicable - last_update) * ((rate * (PRECISION as int)) / total) >= 0) by (nonlinear_arith)
                requires
                    applicable - last_update > 0,
                    (rate * (PRECISION as int)) / total >= 0,
            ;
        }
    }
}

/// Unclaimed rewards never decrease when a bond settles.
pub proof fn lemma_earned_grows(bond: int, rpt: int, paid: int, accrued: int)
    requires
        bond >= 0,
        rpt >= paid,
    ensures
        earned_amount(bond, rpt, paid, accrued) >= accrued,
{
    assert(bond * (rpt - paid) >= 0) by (nonlinear_arith)
        requires
            bond >= 0,
            rpt - paid >= 0,
    ;
    assert(bond * (rpt - paid) / (PRECISION as int) >= 0) by (nonlinear_arith)
        requires
            bond * (rpt - paid) >= 0,
    ;
}

} // verus!
