//! The registry as a mathematical state: what each call does to it, which
//! calls are refused, and which states are well formed.

use crate::registry::reputation::{reputation_after_slash, DEFAULT_REPUTATION};
use crate::registry::rewards::{
    earned_amount, earned_fits, fits_i128, last_time_applicable, reward_per_token_at,
    reward_per_token_fits,
};
use crate::registry::types::{ContractError, ServiceStatus, ServiceView};
use crate::token::TokenMoveView;
use vstd::prelude::*;

verus! {

/// Share of a slash paid to the reporter, in basis points (30%).
pub const SLASH_REPORTER_BPS: i128 = 3000;

/// Share of a slash paid to the treasury, in basis points (20%).
pub const SLASH_TREASURY_BPS: i128 = 2000;

/// Basis points in a whole.
pub const BPS: i128 = 10000;

/// The registry's state.
#[verifier::ext_equal]
pub struct RegistryView {
    pub admin: Seq<u8>,
    pub token: Seq<u8>,
    pub min_bond: int,
    pub cooldown_period: int,
    pub dispute_resolver: Option<Seq<u8>>,
    pub treasury: Option<Seq<u8>>,
    pub reward_rate: int,
    pub reward_per_token_stored: int,
    pub last_update_time: int,
    pub reward_end_time: int,
    pub total_bonds: int,
    pub services: Seq<ServiceView>,
}

// ---------------------------------------------------------------------------
// Lookup and sums
// ---------------------------------------------------------------------------

/// Whether `key` has a service record.
pub open spec fn is_registered(v: RegistryView, key: Seq<u8>) -> bool {
    exists|i: int| 0 <= i < v.services.len() && (#[trigger] v.services[i]).owner == key
}

/// The position of the record of `key` (meaningful when registered).
pub open spec fn index_of(v: RegistryView, key: Seq<u8>) -> int {
    choose|i: int| 0 <= i < v.services.len() && (#[trigger] v.services[i]).owner == key
}

/// The record of `key` (meaningful when registered).
pub open spec fn service_of(v: RegistryView, key: Seq<u8>) -> ServiceView {
    v.services[index_of(v, key)]
}

/// The sum of the bonds of a list of services.
pub open spec fn sum_bonds(s: Seq<ServiceView>) -> int
    decreases s.len(),
{
    if s.len() == 0 {
        0
    } else {
        sum_bonds(s.drop_last()) + s.last().bond
    }
}

/// A service record is consistent with the stored reward per token.
pub open spec fn service_wf(s: ServiceView, reward_per_token_stored: int) -> bool {
    &&& 0 <= s.pending_unstake <= s.bond
    &&& s.reputation <= DEFAULT_REPUTATION
    &&& 0 <= s.reward_per_token_paid <= reward_per_token_stored
    &&& s.accrued_rewards >= 0
    &&& s.metadata_hash.len() == 32
    &&& (s.status == ServiceStatus::Unbonding ==> s.pending_unstake == s.bond)
}

/// Well-formed registry states: positive configuration, non-negative reward
/// state, one record per service, and a total bond that is the sum of the
/// services' bonds.
pub open spec fn registry_wf(v: RegistryView) -> bool {
    &&& v.min_bond > 0
    &&& v.cooldown_period > 0
    &&& v.reward_rate >= 0
    &&& v.reward_per_token_stored >= 0
    &&& v.total_bonds == sum_bonds(v.services)
    &&& forall|i: int|
        0 <= i < v.services.len() ==> service_wf(#[trigger] v.services[i], v.reward_per_token_stored)
    &&& forall|i: int, j: int|
        0 <= i < v.services.len() && 0 <= j < v.services.len() && i != j
            ==> (#[trigger] v.services[i]).owner != (#[trigger] v.services[j]).owner
}

/// The bond of `key`, or 0 when it has no record.
pub open spec fn bond_of_spec(v: RegistryView, key: Seq<u8>) -> int {
    if is_registered(v, key) { service_of(v, key).bond } else { 0 }
}

// ---------------------------------------------------------------------------
// Reward settlement
// ---------------------------------------------------------------------------

/// Reward per unit of bond at `now`.
pub open spec fn current_reward_per_token(v: RegistryView, now: int) -> int {
    reward_per_token_at(
        v.total_bonds,
        v.reward_per_token_stored,
        v.reward_rate,
        v.last_update_time,
        v.reward_end_time,
        now,
    )
}

/// Whether bringing the reward state up to `now` stays within `i128`.
pub open spec fn rewards_update_fits(v: RegistryView, now: int) -> bool {
    reward_per_token_fits(
        v.total_bonds,
        v.reward_per_token_stored,
        v.reward_rate,
        v.last_update_time,
        v.reward_end_time,
        now,
    )
}

/// The registry with its global reward state brought up to `now`.
pub open spec fn with_rewards_updated(v: RegistryView, now: int) -> RegistryView {
    RegistryView {
        reward_per_token_stored: current_reward_per_token(v, now),
        last_update_time: if v.reward_end_time > 0 && v.total_bonds > 0 {
            last_time_applicable(now, v.reward_end_time)
        } else {
            v.last_update_time
        },
        ..v
    }
}

/// A service record with its rewards settled at reward per token `rpt`.
pub open spec fn settled(s: ServiceView, rpt: int) -> ServiceView {
    ServiceView {
        accrued_rewards: earned_amount(s.bond, rpt, s.reward_per_token_paid, s.accrued_rewards),
        reward_per_token_paid: rpt,
        ..s
    }
}

/// Whether settling the record of `key` at `now` stays within `i128`.
pub open spec fn settle_fits(v: RegistryView, key: Seq<u8>, now: int) -> bool {
    &&& rewards_update_fits(v, now)
    &&& earned_fits(
        service_of(v, key).bond,
        current_reward_per_token(v, now),
        service_of(v, key).reward_per_token_paid,
        service_of(v, key).accrued_rewards,
    )
}

/// The record of `key` after its rewards are settled at `now`.
pub open spec fn settled_service(v: RegistryView, key: Seq<u8>, now: int) -> ServiceView {
    settled(service_of(v, key), current_reward_per_token(v, now))
}

/// The registry after settling rewards at `now` and replacing the record of
/// `key` with `s`.
pub open spec fn with_service(v: RegistryView, key: Seq<u8>, now: int, s: ServiceView) -> RegistryView {
    let u = with_rewards_updated(v, now);
    RegistryView { services: u.services.update(index_of(v, key), s), ..u }
}

// ---------------------------------------------------------------------------
// Construction
// ---------------------------------------------------------------------------

/// A fresh registry.
pub open spec fn initial_registry(
    admin: Seq<u8>,
    token: Seq<u8>,
    min_bond: int,
    cooldown_period: int,
) -> RegistryView {
    RegistryView {
        admin,
        token,
        min_bond,
        cooldown_period,
        dispute_resolver: None,
        treasury: None,
        reward_rate: 0,
        reward_per_token_stored: 0,
        last_update_time: 0,
        reward_end_time: 0,
        total_bonds: 0,
        services: Seq::empty(),
    }
}

// ---------------------------------------------------------------------------
// register
// ---------------------------------------------------------------------------

/// Why `register` is refused, if it is.
pub open spec fn register_error(v: RegistryView, service: Seq<u8>, bond_amount: int) -> Option<
    ContractError,
> {
    if bond_amount <= 0 {
        Some(ContractError::InvalidAmount)
    } else if bond_amount < v.min_bond {
        Some(ContractError::InsufficientBond)
    } else if is_registered(v, service) {
        Some(ContractError::AlreadyRegistered)
    } else {
        None
    }
}

/// The record of a newly registered service.
pub open spec fn new_service(
    service: Seq<u8>,
    metadata_hash: Seq<u8>,
    bond_amount: int,
    now: int,
    rpt: int,
) -> ServiceView {
    ServiceView {
        owner: service,
        metadata_hash,
        bond: bond_amount,
        pending_unstake: 0,
        unstake_time: 0,
        reputation: DEFAULT_REPUTATION as int,
        status: ServiceStatus::Active,
        registered_at: now,
        last_slash_time: 0,
        reward_per_token_paid: rpt,
        accrued_rewards: 0,
    }
}

/// The registry after `service` registers with `bond_amount` and metadata
/// whose hash is `metadata_hash`.
pub open spec fn registered(
    v: RegistryView,
    service: Seq<u8>,
    metadata_hash: Seq<u8>,
    bond_amount: int,
    now: int,
) -> RegistryView {
    let u = with_rewards_updated(v, now);
    RegistryView {
        services: u.services.push(
            new_service(service, metadata_hash, bond_amount, now, u.reward_per_token_stored),
        ),
        total_bonds: u.total_bonds + bond_amount,
        ..u
    }
}

/// Whether an accepted `register` stays within the integer types.
pub open spec fn register_fits(v: RegistryView, bond_amount: int, now: int) -> bool {
    &&& rewards_update_fits(v, now)
    &&& v.total_bonds + bond_amount <= i128::MAX
}

// ---------------------------------------------------------------------------
// deregister
// ---------------------------------------------------------------------------

/// Why `deregister` is refused, if it is.
pub open spec fn deregister_error(v: RegistryView, service: Seq<u8>) -> Option<ContractError> {
    if !is_registered(v, service) {
        Some(ContractError::NotRegistered)
    } else if service_of(v, service).status != ServiceStatus::Active {
        Some(ContractError::ServiceNotActive)
    } else {
        None
    }
}

/// The record of `service` once it starts unbonding its whole bond at `now`.
pub open spec fn deregistered_service(v: RegistryView, service: Seq<u8>, now: int) -> ServiceView {
    let s = settled_service(v, service, now);
    ServiceView {
        status: ServiceStatus::Unbonding,
        pending_unstake: s.bond,
        unstake_time: now,
        ..s
    }
}

// ---------------------------------------------------------------------------
// stake
// ---------------------------------------------------------------------------

/// Why `stake` is refused, if it is.
pub open spec fn stake_error(v: RegistryView, service: Seq<u8>, amount: int) -> Option<ContractError> {
    if amount <= 0 {
        Some(ContractError::InvalidAmount)
    } else if !is_registered(v, service) {
        Some(ContractError::NotRegistered)
    } else if service_of(v, service).status != ServiceStatus::Active {
        Some(ContractError::ServiceNotActive)
    } else {
        None
    }
}

/// The registry after `service` adds `amount` to its bond at `now`.
pub open spec fn staked(v: RegistryView, service: Seq<u8>, amount: int, now: int) -> RegistryView {
    let s = settled_service(v, service, now);
    let w = with_service(v, service, now, ServiceView { bond: s.bond + amount, ..s });
    RegistryView { total_bonds: w.total_bonds + amount, ..w }
}

// ---------------------------------------------------------------------------
// unstake
// ---------------------------------------------------------------------------

/// Why `unstake` is refused, if it is.
pub open spec fn unstake_error(v: RegistryView, service: Seq<u8>, amount: int) -> Option<ContractError> {
    if amount <= 0 {
        Some(ContractError::InvalidAmount)
    } else if !is_registered(v, service) {
        Some(ContractError::NotRegistered)
    } else if service_of(v, service).status != ServiceStatus::Active {
        Some(ContractError::ServiceNotActive)
    } else if service_of(v, service).pending_unstake > 0 {
        Some(ContractError::PendingUnstakeExists)
    } else if service_of(v, service).bond - amount < v.min_bond {
        Some(ContractError::BondBelowMinimum)
    } else {
        None
    }
}

/// The record of `service` once it starts unbonding `amount` at `now`.
pub open spec fn unstaked_service(v: RegistryView, service: Seq<u8>, amount: int, now: int) -> ServiceView {
    ServiceView { pending_unstake: amount, unstake_time: now, ..settled_service(v, service, now) }
}

// ---------------------------------------------------------------------------
// withdraw
// ---------------------------------------------------------------------------

/// Why `withdraw` is refused, if it is.
pub open spec fn withdraw_error(v: RegistryView, service: Seq<u8>, now: int) -> Option<ContractError> {
    if !is_registered(v, service) {
        Some(ContractError::NotRegistered)
    } else if service_of(v, service).pending_unstake == 0 {
        Some(ContractError::NoPendingUnstake)
    } else if now < service_of(v, service).unstake_time + v.cooldown_period {
        Some(ContractError::CooldownNotPassed)
    } else {
        None
    }
}

/// Whether the cooldown deadline of `service` is representable in `u64`.
pub open spec fn withdraw_fits(v: RegistryView, service: Seq<u8>, now: int) -> bool {
    (is_registered(v, service) && service_of(v, service).pending_unstake != 0) ==> {
        &&& service_of(v, service).unstake_time + v.cooldown_period <= u64::MAX
        &&& (now >= service_of(v, service).unstake_time + v.cooldown_period ==> settle_fits(
            v,
            service,
            now,
        ))
    }
}

/// The record of `service` after its pending amount is paid back.
pub open spec fn withdrawn_service(v: RegistryView, service: Seq<u8>, now: int) -> ServiceView {
    let s = settled_service(v, service, now);
    ServiceView { bond: s.bond - s.pending_unstake, pending_unstake: 0, unstake_time: 0, ..s }
}

/// Whether a withdrawal closes the record: the whole bond of an unbonding
/// service has been paid back.
pub open spec fn withdraw_closes(v: RegistryView, service: Seq<u8>, now: int) -> bool {
    let s = withdrawn_service(v, service, now);
    s.status == ServiceStatus::Unbonding && s.bond == 0
}

/// The registry after `service` withdraws at `now`.
pub open spec fn withdrawn(v: RegistryView, service: Seq<u8>, now: int) -> RegistryView {
    let amount = service_of(v, service).pending_unstake;
    let u = with_rewards_updated(v, now);
    let services = if withdraw_closes(v, service, now) {
        u.services.remove(index_of(v, service))
    } else {
        u.services.update(index_of(v, service), withdrawn_service(v, service, now))
    };
    RegistryView { services, total_bonds: u.total_bonds - amount, ..u }
}

/// The tokens paid out by a withdrawal: the pending amount, then any unclaimed
/// rewards when the record closes.
pub open spec fn withdraw_moves(v: RegistryView, service: Seq<u8>, now: int) -> Seq<TokenMoveView> {
    let principal = seq![TokenMoveView::Out { to: service, amount: service_of(v, service).pending_unstake }];
    let rewards = withdrawn_service(v, service, now).accrued_rewards;
    if withdraw_closes(v, service, now) && rewards > 0 {
        principal.push(TokenMoveView::Out { to: service, amount: rewards })
    } else {
        principal
    }
}

// ---------------------------------------------------------------------------
// slash
// ---------------------------------------------------------------------------

/// Whether `caller` may slash: the admin or the dispute resolver.
pub open spec fn may_slash(v: RegistryView, caller: Seq<u8>) -> bool {
    caller == v.admin || v.dispute_resolver == Some(caller)
}

/// The amount actually slashed: the request, capped to the bond.
pub open spec fn slash_amount_of(v: RegistryView, service: Seq<u8>, amount: int) -> int {
    let bond = service_of(v, service).bond;
    if amount > bond { bond } else { amount }
}

/// Why `slash` is refused, if it is.
pub open spec fn slash_error(v: RegistryView, caller: Seq<u8>, service: Seq<u8>, amount: int) -> Option<
    ContractError,
> {
    if !may_slash(v, caller) {
        Some(ContractError::Unauthorized)
    } else if amount <= 0 {
        Some(ContractError::InvalidAmount)
    } else if !is_registered(v, service) {
        Some(ContractError::NotRegistered)
    } else if slash_amount_of(v, service, amount) == 0 {
        Some(ContractError::NothingToSlash)
    } else {
        None
    }
}

/// Whether an accepted `slash` stays within the integer types.
pub open spec fn slash_fits(v: RegistryView, service: Seq<u8>, amount: int, now: int) -> bool {
    &&& settle_fits(v, service, now)
    &&& slash_amount_of(v, service, amount) * SLASH_REPORTER_BPS <= i128::MAX
}

/// The record of `service` after `amount` is slashed at `now`: the bond is
/// cut, the pending unstake capped to what is left, and the reputation
/// penalised after its recovery so far.
pub open spec fn slashed_service(v: RegistryView, service: Seq<u8>, amount: int, now: int) -> ServiceView {
    let s = settled_service(v, service, now);
    let bond = s.bond - slash_amount_of(v, service, amount);
    ServiceView {
        bond,
        reputation: reputation_after_slash(s.reputation, s.last_slash_time, now),
        last_slash_time: now,
        pending_unstake: if s.pending_unstake > bond { bond } else { s.pending_unstake },
        ..s
    }
}

/// The registry after `amount` of `service`'s bond is slashed at `now`; a
/// record whose bond reaches zero is closed.
pub open spec fn slashed(v: RegistryView, service: Seq<u8>, amount: int, now: int) -> RegistryView {
    let s = slashed_service(v, service, amount, now);
    let u = with_rewards_updated(v, now);
    let services = if s.bond == 0 {
        u.services.remove(index_of(v, service))
    } else {
        u.services.update(index_of(v, service), s)
    };
    RegistryView {
        services,
        total_bonds: u.total_bonds - slash_amount_of(v, service, amount),
        ..u
    }
}

/// The reporter's share of a slash.
pub open spec fn reporter_share(slashed_amount: int) -> int {
    slashed_amount * SLASH_REPORTER_BPS / (BPS as int)
}

/// The treasury's share of a slash.
pub open spec fn treasury_share(slashed_amount: int) -> int {
    slashed_amount * SLASH_TREASURY_BPS / (BPS as int)
}

/// The tokens paid out by a slash: the reporter's share, the treasury's share
/// when a treasury is set, and the unclaimed rewards of a closed record.
pub open spec fn slash_moves(
    v: RegistryView,
    service: Seq<u8>,
    amount: int,
    reporter: Seq<u8>,
    now: int,
) -> Seq<TokenMoveView> {
    let sa = slash_amount_of(v, service, amount);
    let to_reporter = reporter_share(sa);
    let to_treasury = treasury_share(sa);
    let s = slashed_service(v, service, amount, now);
    let m1 = if to_reporter > 0 {
        seq![TokenMoveView::Out { to: reporter, amount: to_reporter }]
    } else {
        Seq::empty()
    };
    let m2 = match v.treasury {
        Some(t) => if to_treasury > 0 {
            m1.push(TokenMoveView::Out { to: t, amount: to_treasury })
        } else {
            m1
        },
        None => m1,
    };
    if s.bond == 0 && s.accrued_rewards > 0 {
        m2.push(TokenMoveView::Out { to: s.owner, amount: s.accrued_rewards })
    } else {
        m2
    }
}

// ---------------------------------------------------------------------------
// claim_rewards
// ---------------------------------------------------------------------------

/// The rewards `service` claims at `now`.
pub open spec fn claimable(v: RegistryView, service: Seq<u8>, now: int) -> int {
    settled_service(v, service, now).accrued_rewards
}

/// The registry after `service` claims its rewards at `now`.
pub open spec fn claimed(v: RegistryView, service: Seq<u8>, now: int) -> RegistryView {
    with_service(v, service, now, ServiceView { accrued_rewards: 0, ..settled_service(v, service, now) })
}

// ---------------------------------------------------------------------------
// notify_reward_amount
// ---------------------------------------------------------------------------

/// The payout rate of a new reward period of `amount` over `duration`
/// seconds, which absorbs what is left of a running period.
pub open spec fn new_reward_rate(v: RegistryView, amount: int, duration: int, now: int) -> int {
    if now >= v.reward_end_time {
        amount / duration
    } else {
        (amount + (v.reward_end_time - now) * v.reward_rate) / duration
    }
}

/// Why `notify_reward_amount` is refused, if it is.
pub open spec fn notify_error(v: RegistryView, amount: int, duration: int, now: int) -> Option<
    ContractError,
> {
    if amount <= 0 || duration == 0 {
        Some(ContractError::InvalidAmount)
    } else if new_reward_rate(v, amount, duration, now) == 0 {
        Some(ContractError::ZeroRewardRate)
    } else {
        None
    }
}

/// Whether `notify_reward_amount` stays within the integer types when its
/// arguments are valid.
pub open spec fn notify_fits(v: RegistryView, amount: int, duration: int, now: int) -> bool {
    (amount > 0 && duration != 0) ==> {
        &&& rewards_update_fits(v, now)
        &&& (now < v.reward_end_time ==> {
            &&& fits_i128((v.reward_end_time - now) * v.reward_rate)
            &&& fits_i128(amount + (v.reward_end_time - now) * v.reward_rate)
        })
        &&& (new_reward_rate(v, amount, duration, now) != 0 ==> now + duration <= u64::MAX)
    }
}

/// The registry after a reward period of `amount` over `duration` starts at
/// `now`.
pub open spec fn notified(v: RegistryView, amount: int, duration: int, now: int) -> RegistryView {
    let u = with_rewards_updated(v, now);
    RegistryView {
        reward_rate: new_reward_rate(v, amount, duration, now),
        last_update_time: now,
        reward_end_time: now + duration,
        ..u
    }
}

} // verus!
