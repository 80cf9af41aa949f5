//! Histories of registry calls: what a sequence of calls does to the state,
//! how much reward it pays out and how much it funds, and the reward
//! accounting that bounds the one by the other.

use crate::registry::lemmas::{
    lemma_push_wf, lemma_registered_index, lemma_remove_wf, lemma_replace_wf,
    lemma_rewards_updated_wf, lemma_settled_wf, lemma_total_nonneg,
};
use crate::registry::model::{
    claimable, claimed, current_reward_per_token, deregister_error, deregistered_service, index_of,
    is_registered, new_reward_rate, new_service, notified, notify_error, register_error, registered,
    registry_wf, service_of, service_wf, settled_service, slash_error, slashed, slashed_service,
    stake_error, staked, sum_bonds, unstake_error, unstaked_service, with_rewards_updated,
    with_service, withdraw_closes, withdraw_error, withdrawn, withdrawn_service, RegistryView,
};
use crate::registry::reputation::DEFAULT_REPUTATION;
use crate::registry::rewards::{last_time_applicable, PRECISION};
use crate::registry::types::ServiceView;
use vstd::prelude::*;

verus! {

/// What a record is owed in rewards, scaled by [`PRECISION`], at reward per
/// token `rpt`: its unclaimed rewards and what its bond has earned since it
/// last settled, before rounding.
pub open spec fn owed(x: ServiceView, rpt: int) -> int {
    (PRECISION as int) * x.accrued_rewards + x.bond * (rpt - x.reward_per_token_paid)
}

/// What a list of records is owed at reward per token `rpt` (see [`owed`]).
pub open spec fn sum_owed(s: Seq<ServiceView>, rpt: int) -> int
    decreases s.len(),
{
    if s.len() == 0 {
        0
    } else {
        sum_owed(s.drop_last(), rpt) + owed(s.last(), rpt)
    }
}

/// The rewards a registry still owes or has scheduled, scaled by
/// [`PRECISION`]: what its records are owed, and what the running period
/// will still pay out from its last update to its end.
pub open spec fn reward_liability(v: RegistryView) -> int {
    sum_owed(v.services, v.reward_per_token_stored) + (PRECISION as int) * v.reward_rate * (
    v.reward_end_time - v.last_update_time)
}

/// Appending a record adds what it is owed.
pub proof fn lemma_owed_push(s: Seq<ServiceView>, x: ServiceView, rpt: int)
    ensures
        sum_owed(s.push(x), rpt) == sum_owed(s, rpt) + owed(x, rpt),
{
    assert(s.push(x).drop_last() =~= s);
}

/// Replacing a record changes the sum by the difference of what is owed.
pub proof fn lemma_owed_update(s: Seq<ServiceView>, i: int, x: ServiceView, rpt: int)
    requires
        0 <= i < s.len(),
    ensures
        sum_owed(s.update(i, x), rpt) == sum_owed(s, rpt) - owed(s[i], rpt) + owed(x, rpt),
    decreases s.len(),
{
    if i == s.len() - 1 {
        assert(s.update(i, x).drop_last() =~= s.drop_last());
    } else {
        lemma_owed_update(s.drop_last(), i, x, rpt);
        assert(s.update(i, x).drop_last() =~= s.drop_last().update(i, x));
    }
}

/// Removing a record takes what it is owed off the sum.
pub proof fn lemma_owed_remove(s: Seq<ServiceView>, i: int, rpt: int)
    requires
        0 <= i < s.len(),
    ensures
        sum_owed(s.remove(i), rpt) == sum_owed(s, rpt) - owed(s[i], rpt),
    decreases s.len(),
{
    if i == s.len() - 1 {
        assert(s.remove(i) =~= s.drop_last());
    } else {
        lemma_owed_remove(s.drop_last(), i, rpt);
        assert(s.remove(i).drop_last() =~= s.drop_last().remove(i));
    }
}

/// Raising the reward per token raises what is owed by the rise times the
/// sum of the bonds.
pub proof fn lemma_owed_shift(s: Seq<ServiceView>, r1: int, r2: int)
    ensures
        sum_owed(s, r2) == sum_owed(s, r1) + (r2 - r1) * sum_bonds(s),
    decreases s.len(),
{
    if s.len() > 0 {
        lemma_owed_shift(s.drop_last(), r1, r2);
        let x = s.last();
        assert(x.bond * (r2 - x.reward_per_token_paid) == x.bond * (r1 - x.reward_per_token_paid) + (r2
            - r1) * x.bond) by (nonlinear_arith);
        assert((r2 - r1) * sum_bonds(s.drop_last()) + (r2 - r1) * x.bond == (r2 - r1) * (sum_bonds(
            s.drop_last(),
        ) + x.bond)) by (nonlinear_arith);
    }
}

/// The clock of the reward state: the last update is not after `now`, and
/// not after the end of the reward period.
pub open spec fn reward_clock_ok(v: RegistryView, now: int) -> bool {
    &&& 0 <= v.last_update_time <= now
    &&& v.last_update_time <= v.reward_end_time
}

/// Bringing the reward state up to `now` never raises the liability: what
/// the records gain is paid out of the schedule of the running period.
pub proof fn lemma_update_liability(v: RegistryView, now: int)
    requires
        registry_wf(v),
    ensures
        registry_wf(with_rewards_updated(v, now)),
        reward_clock_ok(v, now) ==> {
            &&& reward_liability(with_rewards_updated(v, now)) <= reward_liability(v)
            &&& reward_clock_ok(with_rewards_updated(v, now), now)
        },
{
    lemma_rewards_updated_wf(v, now);
    if reward_clock_ok(v, now) {
        lemma_update_liability_in_time(v, now);
    }
}

/// [`lemma_update_liability`] when the reward clock is consistent.
proof fn lemma_update_liability_in_time(v: RegistryView, now: int)
    requires
        registry_wf(v),
        reward_clock_ok(v, now),
    ensures
        reward_liability(with_rewards_updated(v, now)) <= reward_liability(v),
        reward_clock_ok(with_rewards_updated(v, now), now),
{
    lemma_rewards_updated_wf(v, now);
    lemma_total_nonneg(v);
    let u = with_rewards_updated(v, now);
    let p = PRECISION as int;
    let total = v.total_bonds;
    let rate = v.reward_rate;
    let last = v.last_update_time;
    let end = v.reward_end_time;
    lemma_owed_shift(v.services, v.reward_per_token_stored, u.reward_per_token_stored);
    if total != 0 && end > 0 {
        let app = last_time_applicable(now, end);
        if app > last {
            let q = (rate * p) / total;
            assert(q * total <= rate * p && q >= 0) by (nonlinear_arith)
                requires
                    total > 0,
                    rate >= 0,
                    p > 0,
                    q == (rate * p) / total,
            ;
            assert((app - last) * q * total <= (app - last) * rate * p) by (nonlinear_arith)
                requires
                    app - last > 0,
                    q * total <= rate * p,
            ;
            assert(u.reward_per_token_stored - v.reward_per_token_stored == (app - last) * q);
            assert((u.reward_per_token_stored - v.reward_per_token_stored) * total == (app - last) * q
                * total) by (nonlinear_arith)
                requires
                    u.reward_per_token_stored - v.reward_per_token_stored == (app - last) * q,
            ;
            assert(p * rate * (end - last) == p * rate * (end - app) + (app - last) * rate * p)
                by (nonlinear_arith);
        }
    }
}

/// A settled record is owed exactly its unclaimed rewards.
pub proof fn lemma_owed_settled(x: ServiceView, rpt: int)
    requires
        x.reward_per_token_paid == rpt,
    ensures
        owed(x, rpt) == (PRECISION as int) * x.accrued_rewards,
{
    assert(x.bond * (rpt - x.reward_per_token_paid) == 0) by (nonlinear_arith)
        requires
            x.reward_per_token_paid == rpt,
    ;
}

/// Replacing a record changes the liability by the difference of what is
/// owed; the total bond plays no part in it.
pub proof fn lemma_replace_liability(u: RegistryView, i: int, x: ServiceView, total: int)
    requires
        0 <= i < u.services.len(),
    ensures
        reward_liability(RegistryView { services: u.services.update(i, x), total_bonds: total, ..u })
            == reward_liability(u) - owed(u.services[i], u.reward_per_token_stored) + owed(
            x,
            u.reward_per_token_stored,
        ),
{
    lemma_owed_update(u.services, i, x, u.reward_per_token_stored);
}

/// Removing a record takes what it is owed off the liability.
pub proof fn lemma_remove_liability(u: RegistryView, i: int, total: int)
    requires
        0 <= i < u.services.len(),
    ensures
        reward_liability(RegistryView { services: u.services.remove(i), total_bonds: total, ..u })
            == reward_liability(u) - owed(u.services[i], u.reward_per_token_stored),
{
    lemma_owed_remove(u.services, i, u.reward_per_token_stored);
}

/// What settling the record of `key` at `now` gives: the updated state is
/// well formed with no more liability, and the settled record is consistent
/// and owed no more, in whole rewards, than the record was before rounding.
pub proof fn lemma_settle_facts(v: RegistryView, key: Seq<u8>, now: int)
    requires
        registry_wf(v),
        is_registered(v, key),
    ensures
        ({
            let u = with_rewards_updated(v, now);
            let i = index_of(v, key);
            let x = settled_service(v, key, now);
            &&& 0 <= i < v.services.len()
            &&& v.services[i].owner == key
            &&& service_of(v, key) == v.services[i]
            &&& u.services == v.services
            &&& u.total_bonds == v.total_bonds
            &&& registry_wf(u)
            &&& reward_clock_ok(v, now) ==> reward_clock_ok(u, now) && reward_liability(u)
                <= reward_liability(v)
            &&& u.reward_per_token_stored == current_reward_per_token(v, now)
            &&& service_wf(x, u.reward_per_token_stored)
            &&& x.owner == key
            &&& x.reward_per_token_paid == u.reward_per_token_stored
            &&& x.accrued_rewards >= 0
            &&& (PRECISION as int) * x.accrued_rewards <= owed(v.services[i], u.reward_per_token_stored)
        }),
{
    let i = index_of(v, key);
    lemma_registered_index(v, key);
    lemma_update_liability(v, now);
    lemma_settled_wf(v, i, now);
    let u = with_rewards_updated(v, now);
    let o = v.services[i];
    let r = u.reward_per_token_stored;
    let d = o.bond * (r - o.reward_per_token_paid);
    let p = PRECISION as int;
    assert(p * (d / p) <= d) by (nonlinear_arith)
        requires
            p > 0,
    ;
}

/// A call on the registry, as the contract receives it.
pub enum RegistryCall {
    Register { service: Seq<u8>, metadata_hash: Seq<u8>, bond: int },
    Deregister { service: Seq<u8> },
    UpdateMetadata { service: Seq<u8>, metadata_hash: Seq<u8> },
    Stake { service: Seq<u8>, amount: int },
    Unstake { service: Seq<u8>, amount: int },
    Withdraw { service: Seq<u8> },
    Slash { caller: Seq<u8>, service: Seq<u8>, amount: int, reporter: Seq<u8> },
    ClaimRewards { service: Seq<u8> },
    NotifyRewardAmount { amount: int, duration: int },
    SetAdmin { admin: Seq<u8> },
    SetDisputeResolver { resolver: Seq<u8> },
    SetTreasury { treasury: Seq<u8> },
    SetMinBond { min_bond: int },
}

/// The arguments a call can carry: hashes are SHA-256 digests, durations
/// are not negative, and a new minimum bond is positive.
pub open spec fn call_valid(c: RegistryCall) -> bool {
    match c {
        RegistryCall::Register { metadata_hash, .. } => metadata_hash.len() == 32,
        RegistryCall::UpdateMetadata { metadata_hash, .. } => metadata_hash.len() == 32,
        RegistryCall::NotifyRewardAmount { duration, .. } => duration >= 0,
        RegistryCall::SetMinBond { min_bond } => min_bond > 0,
        _ => true,
    }
}

/// What a call at `now` does: the state after it (unchanged when it is
/// refused), the rewards it pays out, and the rewards it funds.
pub open spec fn call_outcome(v: RegistryView, c: RegistryCall, now: int) -> (RegistryView, int, int) {
    match c {
        RegistryCall::Register { service, metadata_hash, bond } => if register_error(v, service, bond) is None {
            (registered(v, service, metadata_hash, bond, now), 0, 0)
        } else {
            (v, 0, 0)
        },
        RegistryCall::Deregister { service } => if deregister_error(v, service) is None {
            (with_service(v, service, now, deregistered_service(v, service, now)), 0, 0)
        } else {
            (v, 0, 0)
        },
        RegistryCall::UpdateMetadata { service, metadata_hash } => if is_registered(v, service) {
            (
                RegistryView {
                    services: v.services.update(
                        index_of(v, service),
                        ServiceView { metadata_hash, ..service_of(v, service) },
                    ),
                    ..v
                },
                0,
                0,
            )
        } else {
            (v, 0, 0)
        },
        RegistryCall::Stake { service, amount } => if stake_error(v, service, amount) is None {
            (staked(v, service, amount, now), 0, 0)
        } else {
            (v, 0, 0)
        },
        RegistryCall::Unstake { service, amount } => if unstake_error(v, service, amount) is None {
            (with_service(v, service, now, unstaked_service(v, service, amount, now)), 0, 0)
        } else {
            (v, 0, 0)
        },
        RegistryCall::Withdraw { service } => if withdraw_error(v, service, now) is None {
            let rewards = withdrawn_service(v, service, now).accrued_rewards;
            (
                withdrawn(v, service, now),
                if withdraw_closes(v, service, now) && rewards > 0 { rewards } else { 0 },
                0,
            )
        } else {
            (v, 0, 0)
        },
        RegistryCall::Slash { caller, service, amount, reporter } => if slash_error(
            v,
            caller,
            service,
            amount,
        ) is None {
            let s = slashed_service(v, service, amount, now);
            (slashed(v, service, amount, now), if s.bond == 0 && s.accrued_rewards > 0 { s.accrued_rewards } else { 0 }, 0)
        } else {
            (v, 0, 0)
        },
        RegistryCall::ClaimRewards { service } => if is_registered(v, service) {
            (claimed(v, service, now), claimable(v, service, now), 0)
        } else {
            (v, 0, 0)
        },
        RegistryCall::NotifyRewardAmount { amount, duration } => if notify_error(v, amount, duration, now) is None {
            (notified(v, amount, duration, now), 0, amount)
        } else {
            (v, 0, 0)
        },
        RegistryCall::SetAdmin { admin } => (RegistryView { admin, ..v }, 0, 0),
        RegistryCall::SetDisputeResolver { resolver } => (RegistryView { dispute_resolver: Some(resolver), ..v }, 0, 0),
        RegistryCall::SetTreasury { treasury } => (RegistryView { treasury: Some(treasury), ..v }, 0, 0),
        RegistryCall::SetMinBond { min_bond } => (RegistryView { min_bond, ..v }, 0, 0),
    }
}

/// What one accepted call keeps: the state stays well formed; and when the
/// reward clock was consistent it stays so, and what the call pays out plus
/// what is still owed or scheduled is at most what was owed or scheduled
/// before plus what it funds.
pub open spec fn step_keeps(v: RegistryView, w: RegistryView, paid: int, funded: int, now: int) -> bool {
    &&& registry_wf(w)
    &&& paid >= 0
    &&& funded >= 0
    &&& reward_clock_ok(v, now) ==> {
        &&& reward_clock_ok(w, now)
        &&& (PRECISION as int) * paid + reward_liability(w) <= reward_liability(v) + (PRECISION
            as int) * funded
    }
}

/// An accepted registration keeps the step property.
proof fn lemma_register_step(v: RegistryView, service: Seq<u8>, metadata_hash: Seq<u8>, bond: int, now: int)
    requires
        registry_wf(v),
        register_error(v, service, bond) is None,
        metadata_hash.len() == 32,
    ensures
        step_keeps(v, registered(v, service, metadata_hash, bond, now), 0, 0, now),
{
    lemma_update_liability(v, now);
    let u = with_rewards_updated(v, now);
    let x = new_service(service, metadata_hash, bond, now, u.reward_per_token_stored);
    assert(!is_registered(u, service));
    lemma_push_wf(u, x);
    lemma_owed_push(u.services, x, u.reward_per_token_stored);
    lemma_owed_settled(x, u.reward_per_token_stored);
    assert(registered(v, service, metadata_hash, bond, now) =~= RegistryView {
        services: u.services.push(x),
        total_bonds: u.total_bonds + x.bond,
        ..u
    });
}

/// Settling the record of `key` and putting `x` in its place, with the total
/// bond moved by the change of bond, keeps the step property when `x` is
/// consistent, settled, and holds at most the settled unclaimed rewards less
/// what is paid out.
proof fn lemma_replace_step(v: RegistryView, key: Seq<u8>, now: int, x: ServiceView, paid: int)
    requires
        registry_wf(v),
        is_registered(v, key),
        x.owner == key,
        x.reward_per_token_paid == current_reward_per_token(v, now),
        service_wf(x, current_reward_per_token(v, now)),
        paid >= 0,
        x.accrued_rewards + paid <= settled_service(v, key, now).accrued_rewards,
    ensures
        ({
            let u = with_rewards_updated(v, now);
            let i = index_of(v, key);
            step_keeps(
                v,
                RegistryView {
                    services: u.services.update(i, x),
                    total_bonds: u.total_bonds - v.services[i].bond + x.bond,
                    ..u
                },
                paid,
                0,
                now,
            )
        }),
{
    lemma_settle_facts(v, key, now);
    let u = with_rewards_updated(v, now);
    let i = index_of(v, key);
    lemma_replace_wf(u, i, x);
    lemma_replace_liability(u, i, x, u.total_bonds - v.services[i].bond + x.bond);
    lemma_owed_settled(x, u.reward_per_token_stored);
}

/// Settling the record of `key` and removing it, paying out its settled
/// unclaimed rewards, keeps the step property.
proof fn lemma_remove_step(v: RegistryView, key: Seq<u8>, now: int, paid: int)
    requires
        registry_wf(v),
        is_registered(v, key),
        paid == settled_service(v, key, now).accrued_rewards,
    ensures
        ({
            let u = with_rewards_updated(v, now);
            let i = index_of(v, key);
            step_keeps(
                v,
                RegistryView {
                    services: u.services.remove(i),
                    total_bonds: u.total_bonds - v.services[i].bond,
                    ..u
                },
                paid,
                0,
                now,
            )
        }),
{
    lemma_settle_facts(v, key, now);
    let u = with_rewards_updated(v, now);
    let i = index_of(v, key);
    lemma_remove_wf(u, i);
    lemma_remove_liability(u, i, u.total_bonds - v.services[i].bond);
}

/// An accepted deregistration keeps the step property.
proof fn lemma_deregister_step(v: RegistryView, service: Seq<u8>, now: int)
    requires
        registry_wf(v),
        deregister_error(v, service) is None,
    ensures
        step_keeps(v, with_service(v, service, now, deregistered_service(v, service, now)), 0, 0, now),
{
    lemma_settle_facts(v, service, now);
    let x = deregistered_service(v, service, now);
    lemma_replace_step(v, service, now, x, 0);
    let u = with_rewards_updated(v, now);
    let i = index_of(v, service);
    assert(with_service(v, service, now, x) =~= RegistryView {
        services: u.services.update(i, x),
        total_bonds: u.total_bonds - v.services[i].bond + x.bond,
        ..u
    });
}

/// An accepted stake keeps the step property.
proof fn lemma_stake_step(v: RegistryView, service: Seq<u8>, amount: int, now: int)
    requires
        registry_wf(v),
        stake_error(v, service, amount) is None,
    ensures
        step_keeps(v, staked(v, service, amount, now), 0, 0, now),
{
    lemma_settle_facts(v, service, now);
    let s = settled_service(v, service, now);
    let x = ServiceView { bond: s.bond + amount, ..s };
    lemma_replace_step(v, service, now, x, 0);
    let u = with_rewards_updated(v, now);
    let i = index_of(v, service);
    assert(staked(v, service, amount, now) =~= RegistryView {
        services: u.services.update(i, x),
        total_bonds: u.total_bonds - v.services[i].bond + x.bond,
        ..u
    });
}

/// An accepted unstake keeps the step property.
proof fn lemma_unstake_step(v: RegistryView, service: Seq<u8>, amount: int, now: int)
    requires
        registry_wf(v),
        unstake_error(v, service, amount) is None,
    ensures
        step_keeps(v, with_service(v, service, now, unstaked_service(v, service, amount, now)), 0, 0, now),
{
    lemma_settle_facts(v, service, now);
    let x = unstaked_service(v, service, amount, now);
    lemma_replace_step(v, service, now, x, 0);
    let u = with_rewards_updated(v, now);
    let i = index_of(v, service);
    assert(with_service(v, service, now, x) =~= RegistryView {
        services: u.services.update(i, x),
        total_bonds: u.total_bonds - v.services[i].bond + x.bond,
        ..u
    });
}

/// A claim keeps the step property, paying out the settled rewards.
proof fn lemma_claim_step(v: RegistryView, service: Seq<u8>, now: int)
    requires
        registry_wf(v),
        is_registered(v, service),
    ensures
        step_keeps(v, claimed(v, service, now), claimable(v, service, now), 0, now),
{
    lemma_settle_facts(v, service, now);
    let s = settled_service(v, service, now);
    let x = ServiceView { accrued_rewards: 0, ..s };
    lemma_replace_step(v, service, now, x, s.accrued_rewards);
    let u = with_rewards_updated(v, now);
    let i = index_of(v, service);
    assert(claimed(v, service, now) =~= RegistryView {
        services: u.services.update(i, x),
        total_bonds: u.total_bonds - v.services[i].bond + x.bond,
        ..u
    });
}

/// An accepted withdrawal keeps the step property.
proof fn lemma_withdraw_step(v: RegistryView, service: Seq<u8>, now: int)
    requires
        registry_wf(v),
        withdraw_error(v, service, now) is None,
    ensures
        ({
            let rewards = withdrawn_service(v, service, now).accrued_rewards;
            step_keeps(
                v,
                withdrawn(v, service, now),
                if withdraw_closes(v, service, now) && rewards > 0 { rewards } else { 0 },
                0,
                now,
            )
        }),
{
    lemma_settle_facts(v, service, now);
    let u = with_rewards_updated(v, now);
    let i = index_of(v, service);
    let o = v.services[i];
    assert(service_wf(o, v.reward_per_token_stored));
    let x = withdrawn_service(v, service, now);
    if withdraw_closes(v, service, now) {
        lemma_remove_step(v, service, now, x.accrued_rewards);
        assert(withdrawn(v, service, now) =~= RegistryView {
            services: u.services.remove(i),
            total_bonds: u.total_bonds - v.services[i].bond,
            ..u
        });
    } else {
        lemma_replace_step(v, service, now, x, 0);
        assert(withdrawn(v, service, now) =~= RegistryView {
            services: u.services.update(i, x),
            total_bonds: u.total_bonds - v.services[i].bond + x.bond,
            ..u
        });
    }
}

/// An accepted slash keeps the step property.
proof fn lemma_slash_step(v: RegistryView, caller: Seq<u8>, service: Seq<u8>, amount: int, now: int)
    requires
        registry_wf(v),
        slash_error(v, caller, service, amount) is None,
    ensures
        ({
            let s = slashed_service(v, service, amount, now);
            step_keeps(
                v,
                slashed(v, service, amount, now),
                if s.bond == 0 && s.accrued_rewards > 0 { s.accrued_rewards } else { 0 },
                0,
                now,
            )
        }),
{
    lemma_settle_facts(v, service, now);
    let u = with_rewards_updated(v, now);
    let i = index_of(v, service);
    let o = v.services[i];
    assert(service_wf(o, v.reward_per_token_stored));
    let x = slashed_service(v, service, amount, now);
    let st = settled_service(v, service, now);
    assert(st.reputation <= DEFAULT_REPUTATION);
    assert(x.reputation <= DEFAULT_REPUTATION);
    if x.bond == 0 {
        lemma_remove_step(v, service, now, x.accrued_rewards);
        assert(slashed(v, service, amount, now) =~= RegistryView {
            services: u.services.remove(i),
            total_bonds: u.total_bonds - v.services[i].bond,
            ..u
        });
    } else {
        lemma_replace_step(v, service, now, x, 0);
        assert(slashed(v, service, amount, now) =~= RegistryView {
            services: u.services.update(i, x),
            total_bonds: u.total_bonds - v.services[i].bond + x.bond,
            ..u
        });
    }
}

/// A metadata update keeps the step property.
proof fn lemma_update_metadata_step(v: RegistryView, service: Seq<u8>, metadata_hash: Seq<u8>, now: int)
    requires
        registry_wf(v),
        is_registered(v, service),
        metadata_hash.len() == 32,
    ensures
        step_keeps(
            v,
            RegistryView {
                services: v.services.update(
                    index_of(v, service),
                    ServiceView { metadata_hash, ..service_of(v, service) },
                ),
                ..v
            },
            0,
            0,
            now,
        ),
{
    let i = index_of(v, service);
    lemma_registered_index(v, service);
    let o = v.services[i];
    assert(service_wf(o, v.reward_per_token_stored));
    let x = ServiceView { metadata_hash, ..o };
    lemma_replace_wf(v, i, x);
    lemma_replace_liability(v, i, x, v.total_bonds);
    assert(v.total_bonds - o.bond + x.bond == v.total_bonds);
    assert(RegistryView { services: v.services.update(i, x), ..v } =~= RegistryView {
        services: v.services.update(i, x),
        total_bonds: v.total_bonds - o.bond + x.bond,
        ..v
    });
}

/// A new reward period keeps the step property: what it schedules is at
/// most what it funds plus what the running period still had scheduled.
proof fn lemma_notify_step(v: RegistryView, amount: int, duration: int, now: int)
    requires
        registry_wf(v),
        notify_error(v, amount, duration, now) is None,
        duration >= 0,
    ensures
        step_keeps(v, notified(v, amount, duration, now), 0, amount, now),
{
    lemma_update_liability(v, now);
    let u = with_rewards_updated(v, now);
    let w = notified(v, amount, duration, now);
    let p = PRECISION as int;
    let rate = v.reward_rate;
    let end = v.reward_end_time;
    let last = u.last_update_time;
    let leftover = if now >= end { 0 } else { (end - now) * rate };
    let n = amount + leftover;
    let rate2 = new_reward_rate(v, amount, duration, now);
    assert(leftover >= 0) by (nonlinear_arith)
        requires
            leftover == (if now >= end { 0 } else { (end - now) * rate }),
            rate >= 0,
    ;
    assert(rate2 == n / duration);
    assert(rate2 * duration <= n && rate2 >= 0) by (nonlinear_arith)
        requires
            duration > 0,
            rate2 == n / duration,
            n >= amount,
            amount > 0,
    ;
    if reward_clock_ok(v, now) {
        assert(leftover <= rate * (end - last)) by (nonlinear_arith)
            requires
                leftover == (if now >= end { 0 } else { (end - now) * rate }),
                last <= now,
                last <= end,
                rate >= 0,
        ;
        assert(p * rate2 * duration <= p * n) by (nonlinear_arith)
            requires
                rate2 * duration <= n,
                p > 0,
        ;
        assert(p * n <= p * amount + p * rate * (end - last)) by (nonlinear_arith)
            requires
                n == amount + leftover,
                leftover <= rate * (end - last),
                p > 0,
        ;
        assert(reward_liability(w) == sum_owed(u.services, u.reward_per_token_stored) + p * rate2
            * duration);
        assert(reward_liability(u) == sum_owed(u.services, u.reward_per_token_stored) + p * rate * (
        end - last));
    }
}

/// Every call keeps the step property: accepted calls as shown above, and
/// refused calls because they change nothing.
pub proof fn lemma_call_step(v: RegistryView, c: RegistryCall, now: int)
    requires
        registry_wf(v),
        call_valid(c),
    ensures
        step_keeps(v, call_outcome(v, c, now).0, call_outcome(v, c, now).1, call_outcome(v, c, now).2, now),
{
    match c {
        RegistryCall::Register { service, metadata_hash, bond } => {
            if register_error(v, service, bond) is None {
                lemma_register_step(v, service, metadata_hash, bond, now);
            }
        },
        RegistryCall::Deregister { service } => {
            if deregister_error(v, service) is None {
                lemma_deregister_step(v, service, now);
            }
        },
        RegistryCall::UpdateMetadata { service, metadata_hash } => {
            if is_registered(v, service) {
                lemma_update_metadata_step(v, service, metadata_hash, now);
            }
        },
        RegistryCall::Stake { service, amount } => {
            if stake_error(v, service, amount) is None {
                lemma_stake_step(v, service, amount, now);
            }
        },
        RegistryCall::Unstake { service, amount } => {
            if unstake_error(v, service, amount) is None {
                lemma_unstake_step(v, service, amount, now);
            }
        },
        RegistryCall::Withdraw { service } => {
            if withdraw_error(v, service, now) is None {
                lemma_withdraw_step(v, service, now);
            }
        },
        RegistryCall::Slash { caller, service, amount, reporter } => {
            if slash_error(v, caller, service, amount) is None {
                lemma_slash_step(v, caller, service, amount, now);
            }
        },
        RegistryCall::ClaimRewards { service } => {
            if is_registered(v, service) {
                lemma_claim_step(v, service, now);
            }
        },
        RegistryCall::NotifyRewardAmount { amount, duration } => {
            if notify_error(v, amount, duration, now) is None {
                lemma_notify_step(v, amount, duration, now);
            }
        },
        RegistryCall::SetAdmin { admin } => {
            assert(RegistryView { admin, ..v }.services == v.services);
        },
        RegistryCall::SetDisputeResolver { resolver } => {
            assert(RegistryView { dispute_resolver: Some(resolver), ..v }.services == v.services);
        },
        RegistryCall::SetTreasury { treasury } => {
            assert(RegistryView { treasury: Some(treasury), ..v }.services == v.services);
        },
        RegistryCall::SetMinBond { min_bond } => {
            assert(RegistryView { min_bond, ..v }.services == v.services);
        },
    }
}

/// In a well-formed registry nothing is owed below zero.
pub proof fn lemma_owed_nonneg(s: Seq<ServiceView>, rpt: int)
    requires
        forall|j: int| 0 <= j < s.len() ==> service_wf(#[trigger] s[j], rpt),
    ensures
        sum_owed(s, rpt) >= 0,
    decreases s.len(),
{
    if s.len() > 0 {
        lemma_owed_nonneg(s.drop_last(), rpt);
        let x = s.last();
        assert(service_wf(s[s.len() - 1], rpt));
        assert(x.bond * (rpt - x.reward_per_token_paid) >= 0) by (nonlinear_arith)
            requires
                x.bond >= 0,
                rpt >= x.reward_per_token_paid,
        ;
    }
}

/// The liability of a well-formed registry with a consistent reward clock
/// is not negative.
pub proof fn lemma_liability_nonneg(v: RegistryView, now: int)
    requires
        registry_wf(v),
        reward_clock_ok(v, now),
    ensures
        reward_liability(v) >= 0,
{
    assert forall|j: int| 0 <= j < v.services.len() implies service_wf(
        #[trigger] v.services[j],
        v.reward_per_token_stored,
    ) by {
        assert(service_wf(v.services[j], v.reward_per_token_stored));
    }
    lemma_owed_nonneg(v.services, v.reward_per_token_stored);
    let p = PRECISION as int;
    assert(p * v.reward_rate * (v.reward_end_time - v.last_update_time) >= 0) by (nonlinear_arith)
        requires
            p > 0,
            v.reward_rate >= 0,
            v.reward_end_time >= v.last_update_time,
    ;
}

/// A history of calls, each with the time at which it is made: the calls
/// carry valid arguments, no time is negative, and time never goes back.
pub open spec fn history_valid(calls: Seq<(RegistryCall, int)>) -> bool {
    &&& forall|k: int| 0 <= k < calls.len() ==> call_valid(#[trigger] calls[k].0) && calls[k].1 >= 0
    &&& forall|j: int, k: int| 0 <= j <= k < calls.len() ==> #[trigger] calls[j].1 <= #[trigger] calls[k].1
}

/// What a history of calls does, starting from `v`: the state after the
/// last call, the rewards paid out, and the rewards funded.
pub open spec fn run(v: RegistryView, calls: Seq<(RegistryCall, int)>) -> (RegistryView, int, int)
    decreases calls.len(),
{
    if calls.len() == 0 {
        (v, 0, 0)
    } else {
        let before = run(v, calls.drop_last());
        let last = calls.last();
        let after = call_outcome(before.0, last.0, last.1);
        (after.0, before.1 + after.1, before.2 + after.2)
    }
}

/// Every prefix of a history keeps the step property, counted from `v`
/// when `v` is well formed and its reward clock is consistent at `t0`, the
/// earliest time.
pub proof fn lemma_run(v: RegistryView, t0: int, calls: Seq<(RegistryCall, int)>)
    requires
        registry_wf(v),
        reward_clock_ok(v, t0),
        history_valid(calls),
        calls.len() > 0 ==> t0 <= calls[0].1,
    ensures
        step_keeps(
            v,
            run(v, calls).0,
            run(v, calls).1,
            run(v, calls).2,
            if calls.len() == 0 { t0 } else { calls.last().1 },
        ),
    decreases calls.len(),
{
    if calls.len() > 0 {
        let prefix = calls.drop_last();
        assert(history_valid(prefix)) by {
            assert forall|j: int, k: int| 0 <= j <= k < prefix.len() implies #[trigger] prefix[j].1
                <= #[trigger] prefix[k].1 by {
                assert(calls[j].1 <= calls[k].1);
            }
            assert forall|k: int| 0 <= k < prefix.len() implies call_valid(#[trigger] prefix[k].0)
                && prefix[k].1 >= 0 by {
                assert(call_valid(calls[k].0) && calls[k].1 >= 0);
            }
        }
        lemma_run(v, t0, prefix);
        let last = calls.last();
        let n = calls.len() - 1;
        assert(call_valid(calls[n].0) && calls[n].1 >= 0);
        if prefix.len() > 0 {
            assert(calls[n - 1].1 <= calls[n].1);
        } else {
            assert(calls[0].1 == last.1);
        }
        let before = run(v, prefix);
        lemma_call_step(before.0, last.0, last.1);
    }
}

} // verus!
