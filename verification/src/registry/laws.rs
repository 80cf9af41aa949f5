//! What holds of the registry across calls.

use crate::registry::history::{
    call_outcome, call_valid, history_valid, lemma_call_step, lemma_liability_nonneg, lemma_run,
    reward_clock_ok, reward_liability, run, sum_owed, RegistryCall,
};
use crate::registry::lemmas::{
    lemma_index_of, lemma_registered_index, lemma_replace_wf, lemma_rewards_updated_wf,
    lemma_settled_wf, lemma_total_nonneg,
};
use crate::registry::model::{
    bond_of_spec, claimable, claimed, current_reward_per_token, deregister_error,
    deregistered_service, index_of, initial_registry, is_registered, register_error, registered,
    registry_wf, reporter_share, service_of, slash_amount_of, slash_error, slashed,
    slashed_service, stake_error, staked, sum_bonds, treasury_share, unstake_error,
    unstaked_service, with_rewards_updated, with_service, withdraw_closes, withdraw_error,
    withdraw_moves, withdrawn, slash_moves, notified, notify_error, RegistryView,
};
use crate::registry::reputation::effective_reputation_at;
use crate::registry::rewards::{earned_amount, last_time_applicable, PRECISION};
use crate::registry::types::{ServiceStatus, ServiceView};
use crate::token::TokenMoveView;
use vstd::prelude::*;

verus! {

/// The total bond the registry reports is the sum of the bonds of its
/// services, and no service holds more than that total.
pub proof fn law_total_bonds_is_sum(v: RegistryView)
    requires
        registry_wf(v),
    ensures
        v.total_bonds == sum_bonds(v.services),
        v.total_bonds >= 0,
        forall|i: int| 0 <= i < v.services.len() ==> 0 <= (#[trigger] v.services[i]).bond <= v.total_bonds,
{
    lemma_total_nonneg(v);
}

/// After a service registers with a bond, reading its bond gives that bond
/// back, and the total bond grows by it.
pub proof fn law_register_then_bond_of(
    v: RegistryView,
    service: Seq<u8>,
    metadata_hash: Seq<u8>,
    bond_amount: int,
    now: int,
)
    requires
        registry_wf(v),
        register_error(v, service, bond_amount) is None,
    ensures
        is_registered(registered(v, service, metadata_hash, bond_amount, now), service),
        bond_of_spec(registered(v, service, metadata_hash, bond_amount, now), service) == bond_amount,
        registered(v, service, metadata_hash, bond_amount, now).total_bonds == v.total_bonds + bond_amount,
{
    let w = registered(v, service, metadata_hash, bond_amount, now);
    let n = v.services.len() as int;
    lemma_rewards_updated_wf(v, now);
    assert(w.services[n].owner == service);
    assert(is_registered(w, service));
    let j = index_of(w, service);
    if j != n {
        assert(v.services[j].owner == service);
        assert(is_registered(v, service));
    }
}

/// After an active service adds to its bond, reading its bond gives the old
/// bond plus the amount, and the total bond grows by the amount.
pub proof fn law_stake_then_bond_of(v: RegistryView, service: Seq<u8>, amount: int, now: int)
    requires
        registry_wf(v),
        stake_error(v, service, amount) is None,
    ensures
        is_registered(staked(v, service, amount, now), service),
        bond_of_spec(staked(v, service, amount, now), service) == bond_of_spec(v, service) + amount,
        staked(v, service, amount, now).total_bonds == v.total_bonds + amount,
{
    let i = index_of(v, service);
    lemma_registered_index(v, service);
    lemma_rewards_updated_wf(v, now);
    let w = staked(v, service, amount, now);
    assert(w.services[i].owner == service);
    assert(is_registered(w, service));
    let j = index_of(w, service);
    if j != i {
        assert(v.services[j].owner == service);
        assert(v.services[j].owner != v.services[i].owner);
    }
}

/// A service that deregisters gets its whole bond back once the cooldown
/// has passed: the withdrawal is accepted, pays the bond out to the service
/// first, closes its record, and takes the bond off the total.
pub proof fn law_unbonded_bond_returned(v: RegistryView, service: Seq<u8>, t1: int, t2: int)
    requires
        registry_wf(v),
        deregister_error(v, service) is None,
        service_of(v, service).bond > 0,
        t2 >= t1 + v.cooldown_period,
    ensures
        ({
            let w = with_service(v, service, t1, deregistered_service(v, service, t1));
            &&& withdraw_error(w, service, t2) is None
            &&& withdraw_moves(w, service, t2)[0] == (TokenMoveView::Out {
                to: service,
                amount: service_of(v, service).bond,
            })
            &&& !is_registered(withdrawn(w, service, t2), service)
            &&& withdrawn(w, service, t2).total_bonds == v.total_bonds - service_of(v, service).bond
        }),
{
    let i = index_of(v, service);
    lemma_registered_index(v, service);
    let u = with_rewards_updated(v, t1);
    lemma_rewards_updated_wf(v, t1);
    lemma_settled_wf(v, i, t1);
    let x = deregistered_service(v, service, t1);
    lemma_replace_wf(u, i, x);
    let w = with_service(v, service, t1, x);
    assert(w.services[i] == x);
    lemma_index_of(w, service, i);
    assert(service_of(w, service) == x);
    let u2 = with_rewards_updated(w, t2);
    lemma_rewards_updated_wf(w, t2);
    let z = withdrawn(w, service, t2);
    assert(z.services =~= u2.services.remove(i));
    assert forall|j: int| 0 <= j < z.services.len() implies (#[trigger] z.services[j]).owner != service by {
        if j < i {
            assert(w.services[j].owner != w.services[i].owner);
        } else {
            assert(w.services[j + 1].owner != w.services[i].owner);
        }
    }
}

/// Partial unbonding pays out exactly the amount once the cooldown has
/// passed, and the service stays listed with the rest of its bond, never
/// less than the minimum bond.
pub proof fn law_partial_unbond(v: RegistryView, service: Seq<u8>, amount: int, t1: int, t2: int)
    requires
        registry_wf(v),
        unstake_error(v, service, amount) is None,
        t2 >= t1 + v.cooldown_period,
    ensures
        ({
            let w = with_service(v, service, t1, unstaked_service(v, service, amount, t1));
            &&& withdraw_error(w, service, t2) is None
            &&& withdraw_moves(w, service, t2) == seq![TokenMoveView::Out { to: service, amount }]
            &&& is_registered(withdrawn(w, service, t2), service)
            &&& bond_of_spec(withdrawn(w, service, t2), service) == service_of(v, service).bond - amount
            &&& bond_of_spec(withdrawn(w, service, t2), service) >= v.min_bond
            &&& withdrawn(w, service, t2).total_bonds == v.total_bonds - amount
        }),
{
    let i = index_of(v, service);
    lemma_registered_index(v, service);
    let u = with_rewards_updated(v, t1);
    lemma_rewards_updated_wf(v, t1);
    lemma_settled_wf(v, i, t1);
    let x = unstaked_service(v, service, amount, t1);
    lemma_replace_wf(u, i, x);
    let w = with_service(v, service, t1, x);
    assert(w.services[i] == x);
    lemma_index_of(w, service, i);
    let u2 = with_rewards_updated(w, t2);
    lemma_rewards_updated_wf(w, t2);
    lemma_settled_wf(w, i, t2);
    let z = withdrawn(w, service, t2);
    assert(z.services[i].owner == service);
    lemma_replace_wf(u2, i, z.services[i]);
    lemma_index_of(z, service, i);
}

/// A claim settles everything earned so far: claiming again at the same
/// moment pays nothing.
pub proof fn law_second_claim_pays_nothing(v: RegistryView, service: Seq<u8>, now: int)
    requires
        registry_wf(v),
        is_registered(v, service),
        0 <= v.last_update_time,
        0 <= now,
    ensures
        is_registered(claimed(v, service, now), service),
        claimable(claimed(v, service, now), service, now) == 0,
{
    let i = index_of(v, service);
    lemma_registered_index(v, service);
    lemma_rewards_updated_wf(v, now);
    lemma_settled_wf(v, i, now);
    let w = claimed(v, service, now);
    assert(w.services[i].owner == service);
    lemma_replace_wf(with_rewards_updated(v, now), i, w.services[i]);
    lemma_index_of(w, service, i);
    let u = with_rewards_updated(v, now);
    lemma_total_nonneg(v);
    assert(w.total_bonds == v.total_bonds);
    assert(w.reward_per_token_stored == u.reward_per_token_stored);
    assert(w.last_update_time == u.last_update_time);
    assert(w.reward_end_time == v.reward_end_time);
    assert(last_time_applicable(now, w.reward_end_time) <= w.last_update_time || w.total_bonds == 0);
    assert(current_reward_per_token(w, now) == current_reward_per_token(v, now));
    assert(earned_amount(w.services[i].bond, current_reward_per_token(v, now), current_reward_per_token(v, now), 0) == 0);
}

/// A slash that is accepted takes a positive amount, at most the request and
/// at most the service's bond, pays at most half of it to the reporter and
/// the treasury together, and takes exactly it off the total bond.
pub proof fn law_slash_within_bond(v: RegistryView, caller: Seq<u8>, service: Seq<u8>, amount: int, now: int)
    requires
        registry_wf(v),
        slash_error(v, caller, service, amount) is None,
    ensures
        0 < slash_amount_of(v, service, amount) <= service_of(v, service).bond,
        slash_amount_of(v, service, amount) <= amount,
        0 <= reporter_share(slash_amount_of(v, service, amount)),
        0 <= treasury_share(slash_amount_of(v, service, amount)),
        2 * (reporter_share(slash_amount_of(v, service, amount)) + treasury_share(
            slash_amount_of(v, service, amount),
        )) <= slash_amount_of(v, service, amount),
        slashed(v, service, amount, now).total_bonds == v.total_bonds - slash_amount_of(v, service, amount),
{
    let sa = slash_amount_of(v, service, amount);
    lemma_rewards_updated_wf(v, now);
    assert(sa > 0);
    assert(sa * 3000 / 10000 >= 0 && sa * 2000 / 10000 >= 0 && 2 * (sa * 3000 / 10000 + sa * 2000 / 10000) <= sa)
        by (nonlinear_arith)
        requires
            sa > 0,
    ;
}

/// A slash that takes the whole bond removes the service from the registry.
pub proof fn law_full_slash_removes_service(v: RegistryView, caller: Seq<u8>, service: Seq<u8>, amount: int, now: int)
    requires
        registry_wf(v),
        slash_error(v, caller, service, amount) is None,
        amount >= service_of(v, service).bond,
    ensures
        !is_registered(slashed(v, service, amount, now), service),
        slashed(v, service, amount, now).total_bonds == v.total_bonds - service_of(v, service).bond,
{
    let i = index_of(v, service);
    lemma_registered_index(v, service);
    lemma_rewards_updated_wf(v, now);
    let u = with_rewards_updated(v, now);
    let z = slashed(v, service, amount, now);
    assert(z.services =~= u.services.remove(i));
    assert forall|j: int| 0 <= j < z.services.len() implies (#[trigger] z.services[j]).owner != service by {
        if j < i {
            assert(v.services[j].owner != v.services[i].owner);
        } else {
            assert(v.services[j + 1].owner != v.services[i].owner);
        }
    }
}

/// Over the same period, a larger bond never earns less.
pub proof fn law_earnings_grow_with_bond(b1: int, b2: int, rpt: int, paid: int, accrued: int)
    requires
        0 <= b1 <= b2,
        rpt >= paid,
    ensures
        earned_amount(b1, rpt, paid, accrued) <= earned_amount(b2, rpt, paid, accrued),
{
    assert(b1 * (rpt - paid) <= b2 * (rpt - paid)) by (nonlinear_arith)
        requires
            0 <= b1 <= b2,
            rpt >= paid,
    ;
    vstd::arithmetic::div_mod::lemma_div_is_ordered(
        b1 * (rpt - paid),
        b2 * (rpt - paid),
        crate::registry::rewards::PRECISION as int,
    );
}

/// Rewards paid never exceed rewards funded. Over any history of calls on a
/// new registry in which time never goes back, the rewards paid out (what
/// claims return, and the unclaimed rewards paid when a withdrawal or a
/// slash closes a record) add up to at most the amounts of the accepted
/// reward periods; every rounding is downward. Every state reached is well
/// formed: the total bond is the sum of the bonds, and each record is
/// consistent.
pub proof fn law_rewards_paid_within_funded(
    admin: Seq<u8>,
    token: Seq<u8>,
    min_bond: int,
    cooldown_period: int,
    calls: Seq<(RegistryCall, int)>,
)
    requires
        min_bond > 0,
        cooldown_period > 0,
        history_valid(calls),
    ensures
        ({
            let (state, paid, funded) = run(initial_registry(admin, token, min_bond, cooldown_period), calls);
            &&& registry_wf(state)
            &&& 0 <= paid <= funded
        }),
{
    let v = initial_registry(admin, token, min_bond, cooldown_period);
    assert(reward_clock_ok(v, 0));
    assert(sum_owed(v.services, v.reward_per_token_stored) == 0);
    assert(reward_liability(v) == 0);
    if calls.len() > 0 {
        assert(call_valid(calls[0].0) && calls[0].1 >= 0);
    }
    lemma_run(v, 0, calls);
    let (state, paid, funded) = run(v, calls);
    let t = if calls.len() == 0 { 0 } else { calls.last().1 };
    lemma_liability_nonneg(state, t);
    let p = PRECISION as int;
    assert(paid <= funded) by (nonlinear_arith)
        requires
            p * paid <= p * funded,
            p > 0,
    ;
}

/// Every record of `key` in `s` is unbonding.
pub open spec fn records_unbonding(s: Seq<ServiceView>, key: Seq<u8>) -> bool {
    forall|j: int| 0 <= j < s.len() && (#[trigger] s[j]).owner == key ==> s[j].status == ServiceStatus::Unbonding
}

/// Once a service starts unbonding it stays unbonding, with its whole bond
/// pending, for as long as its record exists: no call turns it back to
/// active.
pub proof fn law_unbonding_is_final(v: RegistryView, c: RegistryCall, now: int, key: Seq<u8>)
    requires
        registry_wf(v),
        call_valid(c),
        is_registered(v, key),
        service_of(v, key).status == ServiceStatus::Unbonding,
    ensures
        ({
            let w = call_outcome(v, c, now).0;
            is_registered(w, key) ==> {
                &&& service_of(w, key).status == ServiceStatus::Unbonding
                &&& service_of(w, key).pending_unstake == service_of(w, key).bond
            }
        }),
{
    lemma_call_step(v, c, now);
    let w = call_outcome(v, c, now).0;
    let k = index_of(v, key);
    lemma_registered_index(v, key);
    assert(records_unbonding(v.services, key)) by {
        assert forall|j: int| 0 <= j < v.services.len() && (#[trigger] v.services[j]).owner == key implies v.services[j].status
            == ServiceStatus::Unbonding by {
            if j != k {
                assert(v.services[j].owner != v.services[k].owner);
            }
        }
    }
    let u = with_rewards_updated(v, now);
    assert(u.services == v.services);
    match c {
        RegistryCall::Register { service, metadata_hash, bond } => {
            if register_error(v, service, bond) is None {
                assert(service != key);
                assert(w.services =~= u.services.push(w.services.last()));
            }
        },
        RegistryCall::Stake { service, amount } => {
            if stake_error(v, service, amount) is None {
                assert(service != key);
            }
        },
        RegistryCall::Unstake { service, amount } => {
            if unstake_error(v, service, amount) is None {
                assert(service != key);
            }
        },
        RegistryCall::Withdraw { service } => {
            if withdraw_error(v, service, now) is None {
                lemma_registered_index(v, service);
                let i = index_of(v, service);
                if !withdraw_closes(v, service, now) {
                    assert forall|j: int| 0 <= j < w.services.len() && (#[trigger] w.services[j]).owner == key implies w.services[j].status
                        == ServiceStatus::Unbonding by {
                        if j != i {
                            assert(w.services[j] == v.services[j]);
                        }
                    }
                } else {
                    assert forall|j: int| 0 <= j < w.services.len() && (#[trigger] w.services[j]).owner == key implies w.services[j].status
                        == ServiceStatus::Unbonding by {
                        if j < i {
                            assert(w.services[j] == v.services[j]);
                        } else {
                            assert(w.services[j] == v.services[j + 1]);
                        }
                    }
                }
            }
        },
        RegistryCall::Slash { caller, service, amount, reporter } => {
            if slash_error(v, caller, service, amount) is None {
                lemma_registered_index(v, service);
                let i = index_of(v, service);
                if slashed_service(v, service, amount, now).bond != 0 {
                    assert forall|j: int| 0 <= j < w.services.len() && (#[trigger] w.services[j]).owner == key implies w.services[j].status
                        == ServiceStatus::Unbonding by {
                        if j != i {
                            assert(w.services[j] == v.services[j]);
                        }
                    }
                } else {
                    assert forall|j: int| 0 <= j < w.services.len() && (#[trigger] w.services[j]).owner == key implies w.services[j].status
                        == ServiceStatus::Unbonding by {
                        if j < i {
                            assert(w.services[j] == v.services[j]);
                        } else {
                            assert(w.services[j] == v.services[j + 1]);
                        }
                    }
                }
            }
        },
        _ => {},
    }
    assert(records_unbonding(w.services, key));
    if is_registered(w, key) {
        lemma_registered_index(w, key);
    }
}

/// A slash that leaves some bond cuts the bond by the amount, and caps the
/// pending unstake to what is left: a pending unstake that fits in the
/// remaining bond is kept as it was. The record keeps its status, its
/// reputation loses 10% after its recovery so far (never below zero), and
/// the total bond drops by the amount.
pub proof fn law_slash_keeps_pending_within_bond(
    v: RegistryView,
    caller: Seq<u8>,
    service: Seq<u8>,
    amount: int,
    now: int,
)
    requires
        registry_wf(v),
        slash_error(v, caller, service, amount) is None,
        amount < service_of(v, service).bond,
    ensures
        ({
            let before = service_of(v, service);
            let w = slashed(v, service, amount, now);
            &&& is_registered(w, service)
            &&& service_of(w, service).bond == before.bond - amount
            &&& service_of(w, service).pending_unstake == (if before.pending_unstake
                <= before.bond - amount { before.pending_unstake } else { before.bond - amount })
            &&& service_of(w, service).status == before.status
            &&& service_of(w, service).last_slash_time == now
            &&& service_of(w, service).reputation == (if effective_reputation_at(
                before.reputation,
                before.last_slash_time,
                now,
            ) > 1000 {
                effective_reputation_at(before.reputation, before.last_slash_time, now) - 1000
            } else {
                0
            })
            &&& w.total_bonds == v.total_bonds - amount
        }),
{
    let i = index_of(v, service);
    lemma_registered_index(v, service);
    lemma_call_step(v, RegistryCall::Slash { caller, service, amount, reporter: service }, now);
    let w = slashed(v, service, amount, now);
    assert(w.services[i].owner == service);
    lemma_index_of(w, service, i);
}

/// Reputation recovers by exactly 0.5% a day after a slash: a stored
/// reputation `r` below full, last slashed at time `s`, shows
/// `min(10000, r + 50 * d)` after `d` whole days, and `r` before the slash;
/// a service never slashed shows its stored reputation.
pub proof fn law_reputation_recovers_linearly(r: int, s: int, d: int)
    requires
        0 <= r < 10000,
        s > 0,
        d >= 0,
    ensures
        effective_reputation_at(r, s, s + d * 86400) == (if r + 50 * d < 10000 { r + 50 * d } else {
            10000
        }),
        effective_reputation_at(r, 0, s + d * 86400) == r,
        effective_reputation_at(r, s, s - 1) == r,
{
    assert((s + d * 86400 - s) / 86400 == d) by (nonlinear_arith)
        requires
            d >= 0,
    ;
}

/// The bond read for a registered service is its stored bond, whatever its
/// status: it stays slashable while unbonding. A deregistration leaves it
/// unchanged.
pub proof fn law_bond_of_is_the_bond(v: RegistryView, service: Seq<u8>, now: int)
    requires
        registry_wf(v),
        is_registered(v, service),
    ensures
        bond_of_spec(v, service) == service_of(v, service).bond,
        deregister_error(v, service) is None ==> bond_of_spec(
            with_service(v, service, now, deregistered_service(v, service, now)),
            service,
        ) == bond_of_spec(v, service),
{
    if deregister_error(v, service) is None {
        let i = index_of(v, service);
        lemma_registered_index(v, service);
        lemma_call_step(v, RegistryCall::Deregister { service }, now);
        let w = with_service(v, service, now, deregistered_service(v, service, now));
        assert(w.services[i].owner == service);
        lemma_index_of(w, service, i);
    }
}

/// An active service with nothing pending may unbond any positive amount
/// that leaves at least the minimum bond, the minimum itself included; the
/// amount becomes its pending unstake and its bond stays.
pub proof fn law_unstake_down_to_min_bond(v: RegistryView, service: Seq<u8>, amount: int, now: int)
    requires
        registry_wf(v),
        is_registered(v, service),
        service_of(v, service).status == ServiceStatus::Active,
        service_of(v, service).pending_unstake == 0,
        0 < amount,
        service_of(v, service).bond - amount >= v.min_bond,
    ensures
        unstake_error(v, service, amount) is None,
        ({
            let w = with_service(v, service, now, unstaked_service(v, service, amount, now));
            &&& is_registered(w, service)
            &&& service_of(w, service).pending_unstake == amount
            &&& service_of(w, service).unstake_time == now
            &&& service_of(w, service).bond == service_of(v, service).bond
        }),
{
    let i = index_of(v, service);
    lemma_registered_index(v, service);
    lemma_call_step(v, RegistryCall::Unstake { service, amount }, now);
    let w = with_service(v, service, now, unstaked_service(v, service, amount, now));
    assert(w.services[i].owner == service);
    lemma_index_of(w, service, i);
}

/// A slash pays the reporter 30% and the treasury, when one is set, 20% of
/// the slashed amount (the request capped to the bond), rounded down; when
/// the record survives, nothing else moves.
pub proof fn law_slash_shares(
    v: RegistryView,
    caller: Seq<u8>,
    service: Seq<u8>,
    amount: int,
    reporter: Seq<u8>,
    treasury: Seq<u8>,
    now: int,
)
    requires
        registry_wf(v),
        slash_error(v, caller, service, amount) is None,
        amount < service_of(v, service).bond,
        amount >= 5,
        v.treasury == Some(treasury),
    ensures
        slash_moves(v, service, amount, reporter, now) == seq![
            TokenMoveView::Out { to: reporter, amount: amount * 3 / 10 },
            TokenMoveView::Out { to: treasury, amount: amount / 5 },
        ],
{
    lemma_registered_index(v, service);
    assert(amount * 3000 / 10000 == amount * 3 / 10);
    assert(amount * 2000 / 10000 == amount / 5);
    assert(amount * 3 / 10 > 0);
    assert(amount / 5 > 0);
}

/// Deregistering puts the whole bond up for withdrawal: the service turns
/// unbonding with its whole bond pending from now, its bond stays (and stays
/// slashable), and the total bond is unchanged.
pub proof fn law_deregister_unbonds_whole_bond(v: RegistryView, service: Seq<u8>, now: int)
    requires
        registry_wf(v),
        deregister_error(v, service) is None,
    ensures
        ({
            let w = with_service(v, service, now, deregistered_service(v, service, now));
            &&& is_registered(w, service)
            &&& service_of(w, service).status == ServiceStatus::Unbonding
            &&& service_of(w, service).bond == service_of(v, service).bond
            &&& service_of(w, service).pending_unstake == service_of(v, service).bond
            &&& service_of(w, service).unstake_time == now
            &&& w.total_bonds == v.total_bonds
        }),
{
    let i = index_of(v, service);
    lemma_registered_index(v, service);
    lemma_call_step(v, RegistryCall::Deregister { service }, now);
    let w = with_service(v, service, now, deregistered_service(v, service, now));
    assert(w.services[i].owner == service);
    lemma_index_of(w, service, i);
}

/// A newly registered service starts active, at full reputation, with
/// nothing pending, no rewards, the given bond and metadata hash, and `now`
/// as its registration time.
pub proof fn law_register_fresh_record(
    v: RegistryView,
    service: Seq<u8>,
    metadata_hash: Seq<u8>,
    bond_amount: int,
    now: int,
)
    requires
        registry_wf(v),
        register_error(v, service, bond_amount) is None,
    ensures
        ({
            let s = service_of(registered(v, service, metadata_hash, bond_amount, now), service);
            &&& s.status == ServiceStatus::Active
            &&& s.reputation == 10000
            &&& s.bond == bond_amount
            &&& s.pending_unstake == 0
            &&& s.accrued_rewards == 0
            &&& s.registered_at == now
            &&& s.last_slash_time == 0
            &&& s.metadata_hash == metadata_hash
        }),
{
    law_register_then_bond_of(v, service, metadata_hash, bond_amount, now);
}

/// A withdrawal of a pending unstake is refused before the cooldown has
/// passed since the unstake, and accepted from then on.
pub proof fn law_withdraw_waits_for_cooldown(v: RegistryView, service: Seq<u8>, now: int)
    requires
        registry_wf(v),
        is_registered(v, service),
        service_of(v, service).pending_unstake > 0,
    ensures
        now < service_of(v, service).unstake_time + v.cooldown_period ==> withdraw_error(v, service, now)
            == Some(crate::registry::types::ContractError::CooldownNotPassed),
        now >= service_of(v, service).unstake_time + v.cooldown_period ==> withdraw_error(
            v,
            service,
            now,
        ) is None,
{
}

/// A new reward period of `amount` over `duration` seconds pays out at the
/// rate of `amount` plus what the running period had left, spread over the
/// duration (rounded down), and runs from `now` to `now + duration`.
pub proof fn law_notify_rate(v: RegistryView, amount: int, duration: int, now: int)
    requires
        registry_wf(v),
        notify_error(v, amount, duration, now) is None,
    ensures
        ({
            let w = notified(v, amount, duration, now);
            let leftover = if now < v.reward_end_time { (v.reward_end_time - now) * v.reward_rate } else { 0 };
            &&& w.reward_rate == (amount + leftover) / duration
            &&& w.last_update_time == now
            &&& w.reward_end_time == now + duration
            &&& w.services == v.services
            &&& w.total_bonds == v.total_bonds
        }),
{
    lemma_rewards_updated_wf(v, now);
}

} // verus!
