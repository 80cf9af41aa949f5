//! The registry contract: services bond tokens to be listed, unbond them
//! after a cooldown, are slashed by the admin or the dispute resolver, and share
//! a reward pool in proportion to their bonds.

use crate::account::{opt_view, AccountId};
use crate::crypto::{sha256, sha256_digest};
use crate::registry::lemmas::{
    lemma_index_of, lemma_push_wf, lemma_registered_index, lemma_remove_wf, lemma_replace_wf,
    lemma_rewards_updated_wf, lemma_settled_wf, lemma_total_nonneg,
};
use crate::registry::model::{
    bond_of_spec, claimable, claimed, current_reward_per_token, deregister_error,
    deregistered_service, index_of, initial_registry, is_registered, notified, notify_error,
    notify_fits, register_error, register_fits, registered, registry_wf, rewards_update_fits,
    service_of, service_wf, settle_fits, settled, settled_service, slash_amount_of, slash_error,
    slash_fits, slash_moves, slashed, slashed_service, stake_error, staked, unstake_error,
    unstaked_service, with_rewards_updated, with_service, withdraw_error, withdraw_fits,
    withdraw_moves, withdrawn, withdrawn_service, RegistryView, BPS, SLASH_REPORTER_BPS,
    SLASH_TREASURY_BPS,
};
use crate::registry::reputation::{
    effective_reputation, effective_reputation_at, DEFAULT_REPUTATION, SLASH_REPUTATION_PENALTY,
};
use crate::registry::rewards::{
    earned_checked, earned_fits, earned_value, reward_per_token_checked, reward_per_token_value,
};
use crate::registry::types::{
    ClaimEvent, ContractError, DeregisterEvent, RegisterEvent, RewardEvent, ServiceInfo,
    ServiceStatus, ServiceView, SetAdminEvent, SetDisputeResolverEvent, SetTreasuryEvent,
    SlashEvent, StakeEvent, UnstakeEvent, UpdateMetadataEvent, WithdrawEvent,
};
use crate::token::{moves_view, pay_in, pay_out, Receipt, TokenMove, TokenMoveView};
use vstd::prelude::*;

verus! {

/// The state of the service registry contract. The fields are public so
/// that the host can store the state between calls and load it again; the
/// operations ask for a well-formed state ([`Registry::wf`]) and keep it so.
pub struct Registry {
    pub admin: AccountId,
    pub token: AccountId,
    pub min_bond: i128,
    pub cooldown_period: u64,
    pub dispute_resolver: Option<AccountId>,
    pub treasury: Option<AccountId>,
    pub reward_rate: i128,
    pub reward_per_token_stored: i128,
    pub last_update_time: u64,
    pub reward_end_time: u64,
    pub total_bonds: i128,
    pub services: Vec<ServiceInfo>,
}

/// The views of a list of service records.
pub open spec fn services_view(s: Seq<ServiceInfo>) -> Seq<ServiceView> {
    s.map_values(|x: ServiceInfo| x@)
}

impl View for Registry {
    type V = RegistryView;

    closed spec fn view(&self) -> RegistryView {
        RegistryView {
            admin: self.admin@,
            token: self.token@,
            min_bond: self.min_bond as int,
            cooldown_period: self.cooldown_period as int,
            dispute_resolver: opt_view(self.dispute_resolver),
            treasury: opt_view(self.treasury),
            reward_rate: self.reward_rate as int,
            reward_per_token_stored: self.reward_per_token_stored as int,
            last_update_time: self.last_update_time as int,
            reward_end_time: self.reward_end_time as int,
            total_bonds: self.total_bonds as int,
            services: services_view(self.services@),
        }
    }
}

impl Registry {
    /// The registry's state is well formed (see [`registry_wf`]).
    pub open spec fn wf(&self) -> bool {
        registry_wf(self@)
    }

    /// A registry with an admin, the bond token, a minimum bond and an
    /// unbonding cooldown, holding no services and no rewards.
    pub fn new(admin: AccountId, token: AccountId, min_bond: i128, cooldown_period: u64) -> (r: Registry)
        requires
            min_bond > 0,
            cooldown_period > 0,
        ensures
            r.wf(),
            r@ == initial_registry(admin@, token@, min_bond as int, cooldown_period as int),
    {
        let r = Registry {
            admin,
            token,
            min_bond,
            cooldown_period,
            dispute_resolver: None,
            treasury: None,
            reward_rate: 0,
            reward_per_token_stored: 0,
            last_update_time: 0,
            reward_end_time: 0,
            total_bonds: 0,
            services: Vec::new(),
        };
        assert(r@ =~= initial_registry(r.admin@, r.token@, min_bond as int, cooldown_period as int));
        r
    }

    /// The position of the record of `key`, if it has one.
    fn find(&self, key: &AccountId) -> (r: Option<usize>)
        requires
            self.wf(),
        ensures
            match r {
                Some(i) => {
                    &&& is_registered(self@, key@)
                    &&& i == index_of(self@, key@)
                    &&& i < self.services@.len()
                },
                None => !is_registered(self@, key@),
            },
    {
        let mut i: usize = 0;
        while i < self.services.len()
            invariant
                self.wf(),
                i <= self.services@.len(),
                forall|j: int| 0 <= j < i ==> (#[trigger] self@.services[j]).owner != key@,
                self@.services.len() == self.services@.len(),
                forall|j: int|
                    0 <= j < self.services@.len() ==> (#[trigger] self@.services[j]) == self.services@[j]@,
            decreases self.services@.len() - i,
        {
            if self.services[i].owner.same_as(key) {
                proof {
                    lemma_index_of(self@, key@, i as int);
                }
                return Some(i);
            }
            i = i + 1;
        }
        assert(!is_registered(self@, key@)) by {
            if is_registered(self@, key@) {
                let j = index_of(self@, key@);
                lemma_registered_index(self@, key@);
                assert(self@.services[j].owner == key@);
            }
        }
        None
    }

    /// Brings the global reward state up to `now`; returns the reward per
    /// token it stores.
    fn update_reward_state(&mut self, now: u64) -> (rpt: i128)
        requires
            old(self).wf(),
            rewards_update_fits(old(self)@, now as int),
        ensures
            final(self)@ == with_rewards_updated(old(self)@, now as int),
            rpt == current_reward_per_token(old(self)@, now as int),
            final(self).wf(),
    {
        proof {
            lemma_total_nonneg(self@);
        }
        let rpt = reward_per_token_value(
            self.total_bonds,
            self.reward_per_token_stored,
            self.reward_rate,
            self.last_update_time,
            self.reward_end_time,
            now,
        );
        self.reward_per_token_stored = rpt;
        if self.reward_end_time > 0 && self.total_bonds > 0 {
            self.last_update_time = if now < self.reward_end_time { now } else { self.reward_end_time };
        }
        proof {
            lemma_rewards_updated_wf(old(self)@, now as int);
            assert(self@ =~= with_rewards_updated(old(self)@, now as int));
        }
        rpt
    }

    /// Registers `service` with a bond of `bond_amount`, paid in by the
    /// service, given the hash of its metadata: the hash is stored, the raw
    /// bytes go out in the event.
    pub fn register_hashed(
        &mut self,
        service: &AccountId,
        metadata: Vec<u8>,
        metadata_hash: [u8; 32],
        bond_amount: i128,
        now: u64,
    ) -> (r: Result<Receipt<RegisterEvent>, ContractError>)
        requires
            old(self).wf(),
            register_error(old(self)@, service@, bond_amount as int) is None ==> register_fits(
                old(self)@,
                bond_amount as int,
                now as int,
            ),
        ensures
            final(self).wf(),
            match r {
                Err(e) => {
                    &&& register_error(old(self)@, service@, bond_amount as int) == Some(e)
                    &&& final(self)@ == old(self)@
                },
                Ok(rc) => {
                    &&& register_error(old(self)@, service@, bond_amount as int) is None
                    &&& final(self)@ == registered(
                        old(self)@,
                        service@,
                        metadata_hash@,
                        bond_amount as int,
                        now as int,
                    )
                    &&& moves_view(rc.transfers@) == seq![
                        TokenMoveView::In { from: service@, amount: bond_amount as int },
                    ]
                    &&& rc.event.service@ == service@
                    &&& rc.event.bond == bond_amount
                    &&& rc.event.metadata@ == metadata@
                },
            },
    {
        if bond_amount <= 0 {
            return Err(ContractError::InvalidAmount);
        }
        if bond_amount < self.min_bond {
            return Err(ContractError::InsufficientBond);
        }
        if self.find(service).is_some() {
            return Err(ContractError::AlreadyRegistered);
        }
        let ghost v0 = self@;
        let rpt = self.update_reward_state(now);
        let info = ServiceInfo {
            owner: service.duplicate(),
            metadata_hash,
            bond: bond_amount,
            pending_unstake: 0,
            unstake_time: 0,
            reputation: DEFAULT_REPUTATION,
            status: ServiceStatus::Active,
            registered_at: now,
            last_slash_time: 0,
            reward_per_token_paid: rpt,
            accrued_rewards: 0,
        };
        let ghost u = self@;
        self.services.push(info);
        self.total_bonds = self.total_bonds + bond_amount;
        proof {
            assert(services_view(self.services@) =~= u.services.push(info@));
            assert(self@ =~= registered(v0, service@, metadata_hash@, bond_amount as int, now as int));
            assert(!is_registered(u, service@));
            lemma_push_wf(u, info@);
        }
        let transfers = vec![pay_in(service, bond_amount)];
        proof {
            assert(moves_view(transfers@) =~= seq![
                TokenMoveView::In { from: service@, amount: bond_amount as int },
            ]);
        }
        Ok(Receipt {
            transfers,
            event: RegisterEvent { service: service.duplicate(), bond: bond_amount, metadata },
        })
    }

    /// Registers `service` with a bond of `bond_amount`, paid in by the
    /// service. The SHA-256 hash of `metadata` is stored; the raw bytes go out
    /// in the event.
    pub fn register(
        &mut self,
        env: &soroban_sdk::Env,
        service: &AccountId,
        metadata: Vec<u8>,
        bond_amount: i128,
        now: u64,
    ) -> (r: Result<Receipt<RegisterEvent>, ContractError>)
        requires
            old(self).wf(),
            register_error(old(self)@, service@, bond_amount as int) is None ==> register_fits(
                old(self)@,
                bond_amount as int,
                now as int,
            ),
        ensures
            final(self).wf(),
            match r {
                Err(e) => {
                    &&& register_error(old(self)@, service@, bond_amount as int) == Some(e)
                    &&& final(self)@ == old(self)@
                },
                Ok(rc) => {
                    &&& register_error(old(self)@, service@, bond_amount as int) is None
                    &&& final(self)@ == registered(
                        old(self)@,
                        service@,
                        sha256_digest(metadata@),
                        bond_amount as int,
                        now as int,
                    )
                    &&& moves_view(rc.transfers@) == seq![
                        TokenMoveView::In { from: service@, amount: bond_amount as int },
                    ]
                    &&& rc.event.service@ == service@
                    &&& rc.event.bond == bond_amount
                    &&& rc.event.metadata@ == metadata@
                },
            },
    {
        let metadata_hash = sha256(env, metadata.as_slice());
        self.register_hashed(service, metadata, metadata_hash, bond_amount, now)
    }

    /// The record at `i`, with its rewards settled at reward per token `rpt`.
    fn settled_record(&self, i: usize, rpt: i128) -> (r: ServiceInfo)
        requires
            self.wf(),
            i < self.services@.len(),
            rpt >= self@.services[i as int].reward_per_token_paid,
            earned_fits(
                self@.services[i as int].bond,
                rpt as int,
                self@.services[i as int].reward_per_token_paid,
                self@.services[i as int].accrued_rewards,
            ),
        ensures
            r@ == settled(self@.services[i as int], rpt as int),
    {
        assert(service_wf(self@.services[i as int], self@.reward_per_token_stored));
        let s = &self.services[i];
        let accrued = earned_value(s.bond, rpt, s.reward_per_token_paid, s.accrued_rewards);
        ServiceInfo {
            owner: s.owner.duplicate(),
            metadata_hash: s.metadata_hash,
            bond: s.bond,
            pending_unstake: s.pending_unstake,
            unstake_time: s.unstake_time,
            reputation: s.reputation,
            status: s.status,
            registered_at: s.registered_at,
            last_slash_time: s.last_slash_time,
            reward_per_token_paid: rpt,
            accrued_rewards: accrued,
        }
    }

    /// Finds the record of `service` and settles the global reward state at
    /// `now`; returns the record's position, the reward per token, and the
    /// record with its rewards settled.
    fn settle_service(&mut self, service: &AccountId, i: usize, now: u64) -> (r: (i128, ServiceInfo))
        requires
            old(self).wf(),
            is_registered(old(self)@, service@),
            i == index_of(old(self)@, service@),
            settle_fits(old(self)@, service@, now as int),
        ensures
            final(self)@ == with_rewards_updated(old(self)@, now as int),
            final(self).wf(),
            r.0 == current_reward_per_token(old(self)@, now as int),
            r.1@ == settled_service(old(self)@, service@, now as int),
            service_wf(r.1@, final(self)@.reward_per_token_stored),
            r.1@.owner == service@,
            i < final(self).services@.len(),
            final(self)@.services[i as int] == old(self)@.services[i as int],
    {
        proof {
            lemma_registered_index(self@, service@);
            lemma_settled_wf(self@, i as int, now as int);
            lemma_rewards_updated_wf(self@, now as int);
            assert(service_wf(self@.services[i as int], self@.reward_per_token_stored));
        }
        let rpt = self.update_reward_state(now);
        let info = self.settled_record(i, rpt);
        (rpt, info)
    }

    /// Starts unbonding the whole bond of `service`. The bond stays slashable,
    /// and keeps earning rewards, until it is withdrawn.
    pub fn deregister(&mut self, service: &AccountId, now: u64) -> (r: Result<Receipt<DeregisterEvent>, ContractError>)
        requires
            old(self).wf(),
            deregister_error(old(self)@, service@) is None ==> settle_fits(old(self)@, service@, now as int),
        ensures
            final(self).wf(),
            match r {
                Err(e) => {
                    &&& deregister_error(old(self)@, service@) == Some(e)
                    &&& final(self)@ == old(self)@
                },
                Ok(rc) => {
                    &&& deregister_error(old(self)@, service@) is None
                    &&& final(self)@ == with_service(
                        old(self)@,
                        service@,
                        now as int,
                        deregistered_service(old(self)@, service@, now as int),
                    )
                    &&& rc.transfers@.len() == 0
                    &&& rc.event.service@ == service@
                    &&& rc.event.bond == service_of(old(self)@, service@).bond
                },
            },
    {
        let i = match self.find(service) {
            None => return Err(ContractError::NotRegistered),
            Some(i) => i,
        };
        if self.services[i].status != ServiceStatus::Active {
            return Err(ContractError::ServiceNotActive);
        }
        let ghost v0 = self@;
        let (_rpt, mut info) = self.settle_service(service, i, now);
        let ghost u = self@;
        info.status = ServiceStatus::Unbonding;
        info.pending_unstake = info.bond;
        info.unstake_time = now;
        let bond = info.bond;
        self.services[i] = info;
        proof {
            assert(services_view(self.services@) =~= u.services.update(i as int, info@));
            lemma_replace_wf(u, i as int, info@);
            assert(self@ =~= with_service(v0, service@, now as int, deregistered_service(v0, service@, now as int)));
        }
        Ok(Receipt { transfers: Vec::new(), event: DeregisterEvent { service: service.duplicate(), bond } })
    }

    /// The record of `service`, with its reputation as recovered at `now`.
    pub fn get(&self, service: &AccountId, now: u64) -> (r: Result<ServiceInfo, ContractError>)
        requires
            self.wf(),
        ensures
            match r {
                Err(e) => !is_registered(self@, service@) && e == ContractError::NotRegistered,
                Ok(info) => {
                    &&& is_registered(self@, service@)
                    &&& info@ == ServiceView {
                        reputation: effective_reputation_at(
                            service_of(self@, service@).reputation,
                            service_of(self@, service@).last_slash_time,
                            now as int,
                        ),
                        ..service_of(self@, service@)
                    }
                },
            },
    {
        let i = match self.find(service) {
            None => return Err(ContractError::NotRegistered),
            Some(i) => i,
        };
        let s = &self.services[i];
        let reputation = effective_reputation(s, now);
        Ok(ServiceInfo {
            owner: s.owner.duplicate(),
            metadata_hash: s.metadata_hash,
            bond: s.bond,
            pending_unstake: s.pending_unstake,
            unstake_time: s.unstake_time,
            reputation,
            status: s.status,
            registered_at: s.registered_at,
            last_slash_time: s.last_slash_time,
            reward_per_token_paid: s.reward_per_token_paid,
            accrued_rewards: s.accrued_rewards,
        })
    }

    /// Replaces the stored metadata hash of `service` by `metadata_hash`, the
    /// hash of `metadata`. Allowed while unbonding.
    pub fn update_metadata_hashed(
        &mut self,
        service: &AccountId,
        metadata: Vec<u8>,
        metadata_hash: [u8; 32],
    ) -> (r: Result<Receipt<UpdateMetadataEvent>, ContractError>)
        requires
            old(self).wf(),
        ensures
            final(self).wf(),
            match r {
                Err(e) => {
                    &&& !is_registered(old(self)@, service@)
                    &&& e == ContractError::NotRegistered
                    &&& final(self)@ == old(self)@
                },
                Ok(rc) => {
                    &&& is_registered(old(self)@, service@)
                    &&& final(self)@ == (RegistryView {
                        services: old(self)@.services.update(
                            index_of(old(self)@, service@),
                            ServiceView {
                                metadata_hash: metadata_hash@,
                                ..service_of(old(self)@, service@)
                            },
                        ),
                        ..old(self)@
                    })
                    &&& rc.transfers@.len() == 0
                    &&& rc.event.service@ == service@
                    &&& rc.event.metadata@ == metadata@
                },
            },
    {
        let i = match self.find(service) {
            None => return Err(ContractError::NotRegistered),
            Some(i) => i,
        };
        let ghost v0 = self@;
        proof {
            lemma_registered_index(v0, service@);
            assert(service_wf(v0.services[i as int], v0.reward_per_token_stored));
        }
        let s = &self.services[i];
        let info = ServiceInfo {
            owner: s.owner.duplicate(),
            metadata_hash,
            bond: s.bond,
            pending_unstake: s.pending_unstake,
            unstake_time: s.unstake_time,
            reputation: s.reputation,
            status: s.status,
            registered_at: s.registered_at,
            last_slash_time: s.last_slash_time,
            reward_per_token_paid: s.reward_per_token_paid,
            accrued_rewards: s.accrued_rewards,
        };
        self.services[i] = info;
        proof {
            assert(services_view(self.services@) =~= v0.services.update(i as int, info@));
            lemma_replace_wf(v0, i as int, info@);
            assert(self@ =~= RegistryView {
                services: v0.services.update(
                    index_of(v0, service@),
                    ServiceView { metadata_hash: metadata_hash@, ..service_of(v0, service@) },
                ),
                ..v0
            });
        }
        Ok(Receipt {
            transfers: Vec::new(),
            event: UpdateMetadataEvent { service: service.duplicate(), metadata },
        })
    }

    /// Replaces the stored metadata hash of `service` by the SHA-256
    /// hash of `metadata`. Allowed while unbonding.
    pub fn update_metadata(
        &mut self,
        env: &soroban_sdk::Env,
        service: &AccountId,
        metadata: Vec<u8>,
    ) -> (r: Result<Receipt<UpdateMetadataEvent>, ContractError>)
        requires
            old(self).wf(),
        ensures
            final(self).wf(),
            match r {
                Err(e) => {
                    &&& !is_registered(old(self)@, service@)
                    &&& e == ContractError::NotRegistered
                    &&& final(self)@ == old(self)@
                },
                Ok(rc) => {
                    &&& is_registered(old(self)@, service@)
                    &&& final(self)@ == (RegistryView {
                        services: old(self)@.services.update(
                            index_of(old(self)@, service@),
                            ServiceView {
                                metadata_hash: sha256_digest(metadata@),
                                ..service_of(old(self)@, service@)
                            },
                        ),
                        ..old(self)@
                    })
                    &&& rc.transfers@.len() == 0
                    &&& rc.event.service@ == service@
                    &&& rc.event.metadata@ == metadata@
                },
            },
    {
        let metadata_hash = sha256(env, metadata.as_slice());
        self.update_metadata_hashed(service, metadata, metadata_hash)
    }

    /// Adds `amount`, paid in by the service, to the bond of an active
    /// service.
    pub fn stake(&mut self, service: &AccountId, amount: i128, now: u64) -> (r: Result<Receipt<StakeEvent>, ContractError>)
        requires
            old(self).wf(),
            stake_error(old(self)@, service@, amount as int) is None ==> {
                &&& settle_fits(old(self)@, service@, now as int)
                &&& old(self)@.total_bonds + amount <= i128::MAX
            },
        ensures
            final(self).wf(),
            match r {
                Err(e) => {
                    &&& stake_error(old(self)@, service@, amount as int) == Some(e)
                    &&& final(self)@ == old(self)@
                },
                Ok(rc) => {
                    &&& stake_error(old(self)@, service@, amount as int) is None
                    &&& final(self)@ == staked(old(self)@, service@, amount as int, now as int)
                    &&& moves_view(rc.transfers@) == seq![
                        TokenMoveView::In { from: service@, amount: amount as int },
                    ]
                    &&& rc.event.service@ == service@
                    &&& rc.event.amount == amount
                },
            },
    {
        if amount <= 0 {
            return Err(ContractError::InvalidAmount);
        }
        let i = match self.find(service) {
            None => return Err(ContractError::NotRegistered),
            Some(i) => i,
        };
        if self.services[i].status != ServiceStatus::Active {
            return Err(ContractError::ServiceNotActive);
        }
        let ghost v0 = self@;
        proof {
            lemma_total_nonneg(v0);
        }
        let (_rpt, mut info) = self.settle_service(service, i, now);
        let ghost u = self@;
        info.bond = info.bond + amount;
        self.services[i] = info;
        self.total_bonds = self.total_bonds + amount;
        proof {
            assert(services_view(self.services@) =~= u.services.update(i as int, info@));
            lemma_replace_wf(u, i as int, info@);
            assert(self@ =~= staked(v0, service@, amount as int, now as int));
        }
        let transfers = vec![pay_in(service, amount)];
        proof {
            assert(moves_view(transfers@) =~= seq![TokenMoveView::In { from: service@, amount: amount as int }]);
        }
        Ok(Receipt { transfers, event: StakeEvent { service: service.duplicate(), amount } })
    }

    /// Starts unbonding `amount` of an active service's bond; one unbonding
    /// at a time, and the rest must stay at or above the minimum bond.
    pub fn unstake(&mut self, service: &AccountId, amount: i128, now: u64) -> (r: Result<Receipt<UnstakeEvent>, ContractError>)
        requires
            old(self).wf(),
            unstake_error(old(self)@, service@, amount as int) is None ==> settle_fits(
                old(self)@,
                service@,
                now as int,
            ),
        ensures
            final(self).wf(),
            match r {
                Err(e) => {
                    &&& unstake_error(old(self)@, service@, amount as int) == Some(e)
                    &&& final(self)@ == old(self)@
                },
                Ok(rc) => {
                    &&& unstake_error(old(self)@, service@, amount as int) is None
                    &&& final(self)@ == with_service(
                        old(self)@,
                        service@,
                        now as int,
                        unstaked_service(old(self)@, service@, amount as int, now as int),
                    )
                    &&& rc.transfers@.len() == 0
                    &&& rc.event.service@ == service@
                    &&& rc.event.amount == amount
                },
            },
    {
        if amount <= 0 {
            return Err(ContractError::InvalidAmount);
        }
        let i = match self.find(service) {
            None => return Err(ContractError::NotRegistered),
            Some(i) => i,
        };
        if self.services[i].status != ServiceStatus::Active {
            return Err(ContractError::ServiceNotActive);
        }
        if self.services[i].pending_unstake > 0 {
            return Err(ContractError::PendingUnstakeExists);
        }
        proof {
            lemma_total_nonneg(self@);
        }
        if self.services[i].bond - amount < self.min_bond {
            return Err(ContractError::BondBelowMinimum);
        }
        let ghost v0 = self@;
        let (_rpt, mut info) = self.settle_service(service, i, now);
        let ghost u = self@;
        info.pending_unstake = amount;
        info.unstake_time = now;
        self.services[i] = info;
        proof {
            assert(services_view(self.services@) =~= u.services.update(i as int, info@));
            lemma_replace_wf(u, i as int, info@);
            assert(self@ =~= with_service(v0, service@, now as int, unstaked_service(v0, service@, amount as int, now as int)));
        }
        Ok(Receipt { transfers: Vec::new(), event: UnstakeEvent { service: service.duplicate(), amount } })
    }

    /// Pays back the pending unbonded amount once the cooldown has passed;
    /// an unbonding service that has withdrawn its whole bond also gets its
    /// unclaimed rewards, and its record is closed.
    pub fn withdraw(&mut self, service: &AccountId, now: u64) -> (r: Result<Receipt<WithdrawEvent>, ContractError>)
        requires
            old(self).wf(),
            withdraw_fits(old(self)@, service@, now as int),
        ensures
            final(self).wf(),
            match r {
                Err(e) => {
                    &&& withdraw_error(old(self)@, service@, now as int) == Some(e)
                    &&& final(self)@ == old(self)@
                },
                Ok(rc) => {
                    &&& withdraw_error(old(self)@, service@, now as int) is None
                    &&& final(self)@ == withdrawn(old(self)@, service@, now as int)
                    &&& moves_view(rc.transfers@) == withdraw_moves(old(self)@, service@, now as int)
                    &&& rc.event.service@ == service@
                    &&& rc.event.amount == service_of(old(self)@, service@).pending_unstake
                },
            },
    {
        let i = match self.find(service) {
            None => return Err(ContractError::NotRegistered),
            Some(i) => i,
        };
        if self.services[i].pending_unstake == 0 {
            return Err(ContractError::NoPendingUnstake);
        }
        let deadline = self.services[i].unstake_time + self.cooldown_period;
        if now < deadline {
            return Err(ContractError::CooldownNotPassed);
        }
        let ghost v0 = self@;
        proof {
            lemma_total_nonneg(v0);
        }
        let (_rpt, mut info) = self.settle_service(service, i, now);
        let ghost u = self@;
        let amount = info.pending_unstake;
        let mut transfers: Vec<TokenMove> = vec![pay_out(service, amount)];
        info.bond = info.bond - amount;
        info.pending_unstake = 0;
        info.unstake_time = 0;
        self.total_bonds = self.total_bonds - amount;
        proof {
            assert(info@ == withdrawn_service(v0, service@, now as int));
            assert(moves_view(transfers@) =~= seq![TokenMoveView::Out { to: service@, amount: amount as int }]);
        }
        if info.status == ServiceStatus::Unbonding && info.bond == 0 {
            if info.accrued_rewards > 0 {
                transfers.push(pay_out(service, info.accrued_rewards));
            }
            self.services.remove(i);
            proof {
                assert(services_view(self.services@) =~= u.services.remove(i as int));
                lemma_remove_wf(u, i as int);
            }
        } else {
            self.services[i] = info;
            proof {
                assert(services_view(self.services@) =~= u.services.update(i as int, info@));
                lemma_replace_wf(u, i as int, info@);
            }
        }
        proof {
            assert(self@ =~= withdrawn(v0, service@, now as int));
            assert(moves_view(transfers@) =~= withdraw_moves(v0, service@, now as int));
        }
        Ok(Receipt { transfers, event: WithdrawEvent { service: service.duplicate(), amount } })
    }

    /// Slashes up to `amount` of `service`'s bond on behalf of the admin or
    /// the dispute resolver. Of the slashed amount 30% goes to `reporter`,
    /// 20% to the treasury when one is set, and the rest stays in the
    /// contract. The reputation is cut after its recovery so far; a record
    /// whose bond reaches zero is closed and its unclaimed rewards paid out.
    pub fn slash(
        &mut self,
        caller: &AccountId,
        service: &AccountId,
        amount: i128,
        reporter: &AccountId,
        now: u64,
    ) -> (r: Result<Receipt<SlashEvent>, ContractError>)
        requires
            old(self).wf(),
            slash_error(old(self)@, caller@, service@, amount as int) is None ==> slash_fits(
                old(self)@,
                service@,
                amount as int,
                now as int,
            ),
        ensures
            final(self).wf(),
            match r {
                Err(e) => {
                    &&& slash_error(old(self)@, caller@, service@, amount as int) == Some(e)
                    &&& final(self)@ == old(self)@
                },
                Ok(rc) => {
                    &&& slash_error(old(self)@, caller@, service@, amount as int) is None
                    &&& final(self)@ == slashed(old(self)@, service@, amount as int, now as int)
                    &&& moves_view(rc.transfers@) == slash_moves(
                        old(self)@,
                        service@,
                        amount as int,
                        reporter@,
                        now as int,
                    )
                    &&& rc.event.service@ == service@
                    &&& rc.event.amount == slash_amount_of(old(self)@, service@, amount as int)
                },
            },
    {
        let authorized = caller.same_as(&self.admin) || match &self.dispute_resolver {
            Some(resolver) => caller.same_as(resolver),
            None => false,
        };
        if !authorized {
            return Err(ContractError::Unauthorized);
        }
        if amount <= 0 {
            return Err(ContractError::InvalidAmount);
        }
        let i = match self.find(service) {
            None => return Err(ContractError::NotRegistered),
            Some(i) => i,
        };
        let bond = self.services[i].bond;
        let slash_amount = if amount > bond { bond } else { amount };
        if slash_amount == 0 {
            return Err(ContractError::NothingToSlash);
        }
        let ghost v0 = self@;
        proof {
            lemma_total_nonneg(v0);
            lemma_registered_index(v0, service@);
            assert(service_wf(v0.services[i as int], v0.reward_per_token_stored));
        }
        let (_rpt, mut info) = self.settle_service(service, i, now);
        let ghost u = self@;
        info.bond = info.bond - slash_amount;
        let current_rep = effective_reputation(&info, now);
        info.reputation = current_rep.saturating_sub(SLASH_REPUTATION_PENALTY);
        info.last_slash_time = now;
        if info.pending_unstake > info.bond {
            info.pending_unstake = info.bond;
        }
        self.total_bonds = self.total_bonds - slash_amount;
        let to_reporter = slash_amount * SLASH_REPORTER_BPS / BPS;
        let to_treasury = slash_amount * SLASH_TREASURY_BPS / BPS;
        let mut transfers: Vec<TokenMove> = Vec::new();
        if to_reporter > 0 {
            transfers.push(pay_out(reporter, to_reporter));
        }
        if to_treasury > 0 {
            match &self.treasury {
                Some(treasury) => transfers.push(pay_out(treasury, to_treasury)),
                None => {},
            }
        }
        proof {
            assert(info@ == slashed_service(v0, service@, amount as int, now as int));
        }
        if info.bond == 0 {
            if info.accrued_rewards > 0 {
                transfers.push(pay_out(&info.owner, info.accrued_rewards));
            }
            self.services.remove(i);
            proof {
                assert(services_view(self.services@) =~= u.services.remove(i as int));
                lemma_remove_wf(u, i as int);
            }
        } else {
            self.services[i] = info;
            proof {
                assert(services_view(self.services@) =~= u.services.update(i as int, info@));
                lemma_replace_wf(u, i as int, info@);
            }
        }
        proof {
            assert(self@ =~= slashed(v0, service@, amount as int, now as int));
            assert(moves_view(transfers@) =~= slash_moves(v0, service@, amount as int, reporter@, now as int));
        }
        Ok(Receipt { transfers, event: SlashEvent { service: service.duplicate(), amount: slash_amount } })
    }

    /// Pays out the rewards `service` has earned up to `now`, and returns the
    /// amount (0, with nothing paid and no event, when there is none).
    pub fn claim_rewards(&mut self, service: &AccountId, now: u64) -> (r: Result<(i128, Receipt<Option<ClaimEvent>>), ContractError>)
        requires
            old(self).wf(),
            is_registered(old(self)@, service@) ==> settle_fits(old(self)@, service@, now as int),
        ensures
            final(self).wf(),
            match r {
                Err(e) => {
                    &&& !is_registered(old(self)@, service@)
                    &&& e == ContractError::NotRegistered
                    &&& final(self)@ == old(self)@
                },
                Ok((amount, rc)) => {
                    &&& is_registered(old(self)@, service@)
                    &&& amount == claimable(old(self)@, service@, now as int)
                    &&& final(self)@ == claimed(old(self)@, service@, now as int)
                    &&& if amount == 0 {
                        &&& rc.transfers@.len() == 0
                        &&& rc.event is None
                    } else {
                        &&& moves_view(rc.transfers@) == seq![
                            TokenMoveView::Out { to: service@, amount: amount as int },
                        ]
                        &&& rc.event matches Some(ev) && ev.service@ == service@ && ev.amount == amount
                    }
                },
            },
    {
        let i = match self.find(service) {
            None => return Err(ContractError::NotRegistered),
            Some(i) => i,
        };
        let ghost v0 = self@;
        let (_rpt, mut info) = self.settle_service(service, i, now);
        let ghost u = self@;
        let rewards = info.accrued_rewards;
        info.accrued_rewards = 0;
        self.services[i] = info;
        proof {
            assert(services_view(self.services@) =~= u.services.update(i as int, info@));
            lemma_replace_wf(u, i as int, info@);
            assert(self@ =~= claimed(v0, service@, now as int));
        }
        if rewards == 0 {
            return Ok((0, Receipt { transfers: Vec::new(), event: None }));
        }
        let transfers = vec![pay_out(service, rewards)];
        proof {
            assert(moves_view(transfers@) =~= seq![TokenMoveView::Out { to: service@, amount: rewards as int }]);
        }
        Ok((rewards, Receipt { transfers, event: Some(ClaimEvent { service: service.duplicate(), amount: rewards }) }))
    }

    /// Seeds the reward pool with `amount`, paid in by the admin, to be paid
    /// out over `duration` seconds from `now`; what is left of a running
    /// period is added to it.
    pub fn notify_reward_amount(&mut self, amount: i128, duration: u64, now: u64) -> (r: Result<Receipt<RewardEvent>, ContractError>)
        requires
            old(self).wf(),
            notify_fits(old(self)@, amount as int, duration as int, now as int),
        ensures
            final(self).wf(),
            match r {
                Err(e) => {
                    &&& notify_error(old(self)@, amount as int, duration as int, now as int) == Some(e)
                    &&& final(self)@ == old(self)@
                },
                Ok(rc) => {
                    &&& notify_error(old(self)@, amount as int, duration as int, now as int) is None
                    &&& final(self)@ == notified(old(self)@, amount as int, duration as int, now as int)
                    &&& moves_view(rc.transfers@) == seq![
                        TokenMoveView::In { from: old(self)@.admin, amount: amount as int },
                    ]
                    &&& rc.event == (RewardEvent { amount, duration })
                },
            },
    {
        if amount <= 0 || duration == 0 {
            return Err(ContractError::InvalidAmount);
        }
        let end = self.reward_end_time;
        let rate = if now >= end {
            amount / (duration as i128)
        } else {
            let remaining = (end - now) as i128;
            let leftover = remaining * self.reward_rate;
            assert(leftover >= 0) by (nonlinear_arith)
                requires
                    remaining > 0,
                    self.reward_rate >= 0,
                    leftover == remaining * self.reward_rate,
            ;
            (amount + leftover) / (duration as i128)
        };
        if rate == 0 {
            return Err(ContractError::ZeroRewardRate);
        }
        let ghost v0 = self@;
        self.update_reward_state(now);
        self.reward_rate = rate;
        self.last_update_time = now;
        self.reward_end_time = now + duration;
        proof {
            assert(self@ =~= notified(v0, amount as int, duration as int, now as int));
        }
        let transfers = vec![pay_in(&self.admin, amount)];
        proof {
            assert(moves_view(transfers@) =~= seq![TokenMoveView::In { from: v0.admin, amount: amount as int }]);
        }
        Ok(Receipt { transfers, event: RewardEvent { amount, duration } })
    }

    /// Hands the admin role to `new_admin`.
    pub fn set_admin(&mut self, new_admin: AccountId) -> (ev: SetAdminEvent)
        requires
            old(self).wf(),
        ensures
            final(self).wf(),
            final(self)@ == (RegistryView { admin: new_admin@, ..old(self)@ }),
            ev.old_admin@ == old(self)@.admin,
            ev.new_admin@ == new_admin@,
    {
        let old_admin = self.admin.duplicate();
        let event_admin = new_admin.duplicate();
        self.admin = new_admin;
        proof {
            assert(self@ =~= RegistryView { admin: event_admin@, ..old(self)@ });
        }
        SetAdminEvent { old_admin, new_admin: event_admin }
    }

    /// Sets the contract allowed, besides the admin, to slash.
    pub fn set_dispute_resolver(&mut self, resolver: AccountId) -> (ev: SetDisputeResolverEvent)
        requires
            old(self).wf(),
        ensures
            final(self).wf(),
            final(self)@ == (RegistryView { dispute_resolver: Some(resolver@), ..old(self)@ }),
            ev.resolver@ == resolver@,
    {
        let event_resolver = resolver.duplicate();
        self.dispute_resolver = Some(resolver);
        proof {
            assert(self@ =~= RegistryView { dispute_resolver: Some(event_resolver@), ..old(self)@ });
        }
        SetDisputeResolverEvent { resolver: event_resolver }
    }

    /// Sets the address that receives the treasury share of slashes.
    pub fn set_treasury(&mut self, treasury: AccountId) -> (ev: SetTreasuryEvent)
        requires
            old(self).wf(),
        ensures
            final(self).wf(),
            final(self)@ == (RegistryView { treasury: Some(treasury@), ..old(self)@ }),
            ev.treasury@ == treasury@,
    {
        let event_treasury = treasury.duplicate();
        self.treasury = Some(treasury);
        proof {
            assert(self@ =~= RegistryView { treasury: Some(event_treasury@), ..old(self)@ });
        }
        SetTreasuryEvent { treasury: event_treasury }
    }

    /// Sets the minimum bond for new registrations and partial unbonding.
    pub fn set_min_bond(&mut self, new_min_bond: i128)
        requires
            old(self).wf(),
            new_min_bond > 0,
        ensures
            final(self).wf(),
            final(self)@ == (RegistryView { min_bond: new_min_bond as int, ..old(self)@ }),
    {
        self.min_bond = new_min_bond;
        proof {
            assert(self@ =~= RegistryView { min_bond: new_min_bond as int, ..old(self)@ });
        }
    }

    /// The admin.
    pub fn admin(&self) -> (a: AccountId)
        ensures
            a@ == self@.admin,
    {
        self.admin.duplicate()
    }

    /// The bond token.
    pub fn token(&self) -> (t: AccountId)
        ensures
            t@ == self@.token,
    {
        self.token.duplicate()
    }

    /// The sum of all bonds.
    pub fn total_bonds(&self) -> (t: i128)
        ensures
            t == self@.total_bonds,
    {
        self.total_bonds
    }

    /// The minimum bond.
    pub fn min_bond(&self) -> (m: i128)
        ensures
            m == self@.min_bond,
    {
        self.min_bond
    }

    /// The bond of `service`, or 0 when it is not registered.
    pub fn bond_of(&self, service: &AccountId) -> (b: i128)
        requires
            self.wf(),
        ensures
            b == bond_of_spec(self@, service@),
    {
        match self.find(service) {
            Some(i) => self.services[i].bond,
            None => 0,
        }
    }

    /// Whether bringing the reward state up to `now` stays within `i128`.
    fn rewards_update_checked(&self, now: u64) -> (ok: bool)
        requires
            self.wf(),
        ensures
            ok == rewards_update_fits(self@, now as int),
    {
        proof {
            lemma_total_nonneg(self@);
        }
        reward_per_token_checked(
            self.total_bonds,
            self.reward_per_token_stored,
            self.reward_rate,
            self.last_update_time,
            self.reward_end_time,
            now,
        )
    }

    /// Whether settling the rewards of the record at `i` at `now` stays
    /// within `i128`.
    fn settle_checked(&self, i: usize, now: u64) -> (ok: bool)
        requires
            self.wf(),
            i < self.services@.len(),
        ensures
            ok == settle_fits(self@, self@.services[i as int].owner, now as int),
    {
        proof {
            lemma_index_of(self@, self@.services[i as int].owner, i as int);
            lemma_rewards_updated_wf(self@, now as int);
            assert(service_wf(self@.services[i as int], self@.reward_per_token_stored));
        }
        if !self.rewards_update_checked(now) {
            return false;
        }
        proof {
            lemma_total_nonneg(self@);
        }
        let rpt = reward_per_token_value(
            self.total_bonds,
            self.reward_per_token_stored,
            self.reward_rate,
            self.last_update_time,
            self.reward_end_time,
            now,
        );
        let s = &self.services[i];
        earned_checked(s.bond, rpt, s.reward_per_token_paid, s.accrued_rewards)
    }

    /// Whether `register` stays within the integer types (the condition
    /// [`Registry::register`] requires).
    pub fn register_in_range(&self, service: &AccountId, bond_amount: i128, now: u64) -> (ok: bool)
        requires
            self.wf(),
        ensures
            ok == (register_error(self@, service@, bond_amount as int) is None ==> register_fits(
                self@,
                bond_amount as int,
                now as int,
            )),
    {
        if bond_amount <= 0 || bond_amount < self.min_bond || self.find(service).is_some() {
            return true;
        }
        proof {
            lemma_total_nonneg(self@);
        }
        self.rewards_update_checked(now) && self.total_bonds.checked_add(bond_amount).is_some()
    }

    /// Whether `deregister` stays within the integer types.
    pub fn deregister_in_range(&self, service: &AccountId, now: u64) -> (ok: bool)
        requires
            self.wf(),
        ensures
            ok == (deregister_error(self@, service@) is None ==> settle_fits(self@, service@, now as int)),
    {
        match self.find(service) {
            None => true,
            Some(i) => self.services[i].status != ServiceStatus::Active || self.settle_checked(i, now),
        }
    }

    /// Whether `stake` stays within the integer types.
    pub fn stake_in_range(&self, service: &AccountId, amount: i128, now: u64) -> (ok: bool)
        requires
            self.wf(),
        ensures
            ok == (stake_error(self@, service@, amount as int) is None ==> {
                &&& settle_fits(self@, service@, now as int)
                &&& self@.total_bonds + amount <= i128::MAX
            }),
    {
        if amount <= 0 {
            return true;
        }
        match self.find(service) {
            None => true,
            Some(i) => {
                proof {
                    lemma_total_nonneg(self@);
                }
                self.services[i].status != ServiceStatus::Active || (self.settle_checked(i, now)
                    && self.total_bonds.checked_add(amount).is_some())
            },
        }
    }

    /// Whether `unstake` stays within the integer types.
    pub fn unstake_in_range(&self, service: &AccountId, amount: i128, now: u64) -> (ok: bool)
        requires
            self.wf(),
        ensures
            ok == (unstake_error(self@, service@, amount as int) is None ==> settle_fits(
                self@,
                service@,
                now as int,
            )),
    {
        if amount <= 0 {
            return true;
        }
        match self.find(service) {
            None => true,
            Some(i) => {
                let s = &self.services[i];
                if s.status != ServiceStatus::Active || s.pending_unstake > 0 || s.bond - amount < self.min_bond {
                    true
                } else {
                    self.settle_checked(i, now)
                }
            },
        }
    }

    /// Whether `withdraw` stays within the integer types.
    pub fn withdraw_in_range(&self, service: &AccountId, now: u64) -> (ok: bool)
        requires
            self.wf(),
        ensures
            ok == withdraw_fits(self@, service@, now as int),
    {
        match self.find(service) {
            None => true,
            Some(i) => {
                let s = &self.services[i];
                if s.pending_unstake == 0 {
                    true
                } else {
                    match s.unstake_time.checked_add(self.cooldown_period) {
                        None => false,
                        Some(ready) => now < ready || self.settle_checked(i, now),
                    }
                }
            },
        }
    }

    /// Whether `slash` stays within the integer types.
    pub fn slash_in_range(&self, caller: &AccountId, service: &AccountId, amount: i128, now: u64) -> (ok: bool)
        requires
            self.wf(),
        ensures
            ok == (slash_error(self@, caller@, service@, amount as int) is None ==> slash_fits(
                self@,
                service@,
                amount as int,
                now as int,
            )),
    {
        let authorized = caller.same_as(&self.admin) || match &self.dispute_resolver {
            Some(r) => caller.same_as(r),
            None => false,
        };
        if !authorized || amount <= 0 {
            return true;
        }
        match self.find(service) {
            None => true,
            Some(i) => {
                let s = &self.services[i];
                let actual = if amount > s.bond { s.bond } else { amount };
                if actual == 0 {
                    true
                } else {
                    self.settle_checked(i, now) && actual.checked_mul(SLASH_REPORTER_BPS).is_some()
                }
            },
        }
    }

    /// Whether `claim_rewards` stays within the integer types.
    pub fn claim_in_range(&self, service: &AccountId, now: u64) -> (ok: bool)
        requires
            self.wf(),
        ensures
            ok == (is_registered(self@, service@) ==> settle_fits(self@, service@, now as int)),
    {
        match self.find(service) {
            None => true,
            Some(i) => self.settle_checked(i, now),
        }
    }

    /// Whether `notify_reward_amount` stays within the integer types.
    pub fn notify_in_range(&self, amount: i128, duration: u64, now: u64) -> (ok: bool)
        requires
            self.wf(),
        ensures
            ok == notify_fits(self@, amount as int, duration as int, now as int),
    {
        if amount <= 0 || duration == 0 {
            return true;
        }
        if !self.rewards_update_checked(now) {
            return false;
        }
        let end = self.reward_end_time;
        let rate = if now >= end {
            amount / (duration as i128)
        } else {
            let remaining = (end - now) as i128;
            let leftover = match remaining.checked_mul(self.reward_rate) {
                None => return false,
                Some(x) => x,
            };
            let total = match amount.checked_add(leftover) {
                None => return false,
                Some(x) => x,
            };
            assert(leftover >= 0) by (nonlinear_arith)
                requires
                    remaining > 0,
                    self.reward_rate >= 0,
                    leftover == remaining * self.reward_rate,
            ;
            total / (duration as i128)
        };
        rate == 0 || now.checked_add(duration).is_some()
    }
}

} // verus!
