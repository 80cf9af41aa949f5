use crate::account::AccountId;
use vstd::prelude::*;

verus! {

/// Why a registry call is refused.
#[derive(Clone, Copy, Debug, PartialEq, Eq, Structural)]
pub enum ContractError {
    AlreadyRegistered,
    NotRegistered,
    InsufficientBond,
    Unauthorized,
    InvalidAmount,
    ServiceNotActive,
    CooldownNotPassed,
    NoPendingUnstake,
    PendingUnstakeExists,
    BondBelowMinimum,
    NothingToSlash,
    ZeroRewardRate,
}

impl ContractError {
    /// The numeric code under which the contract reports the error.
    pub fn code(&self) -> (c: u32)
        ensures
            c == self.spec_code(),
    {
        match self {
            ContractError::AlreadyRegistered => 1,
            ContractError::NotRegistered => 2,
            ContractError::InsufficientBond => 3,
            ContractError::Unauthorized => 4,
            ContractError::InvalidAmount => 5,
            ContractError::ServiceNotActive => 6,
            ContractError::CooldownNotPassed => 7,
            ContractError::NoPendingUnstake => 8,
            ContractError::PendingUnstakeExists => 9,
            ContractError::BondBelowMinimum => 10,
            ContractError::NothingToSlash => 11,
            ContractError::ZeroRewardRate => 12,
        }
    }

    /// The numeric code of each error.
    pub open spec fn spec_code(&self) -> u32 {
        match self {
            ContractError::AlreadyRegistered => 1,
            ContractError::NotRegistered => 2,
            ContractError::InsufficientBond => 3,
            ContractError::Unauthorized => 4,
            ContractError::InvalidAmount => 5,
            ContractError::ServiceNotActive => 6,
            ContractError::CooldownNotPassed => 7,
            ContractError::NoPendingUnstake => 8,
            ContractError::PendingUnstakeExists => 9,
            ContractError::BondBelowMinimum => 10,
            ContractError::NothingToSlash => 11,
            ContractError::ZeroRewardRate => 12,
        }
    }
}

/// Whether a service is listed, or winding down its whole bond.
#[derive(Clone, Copy, Debug, PartialEq, Eq, Structural)]
pub enum ServiceStatus {
    Active,
    Unbonding,
}

/// A registered service and its bond.
pub struct ServiceInfo {
    pub owner: AccountId,
    pub metadata_hash: [u8; 32],
    pub bond: i128,
    pub pending_unstake: i128,
    pub unstake_time: u64,
    pub reputation: u32,
    pub status: ServiceStatus,
    pub registered_at: u64,
    pub last_slash_time: u64,
    pub reward_per_token_paid: i128,
    pub accrued_rewards: i128,
}

/// The spec form of a [`ServiceInfo`].
pub struct ServiceView {
    pub owner: Seq<u8>,
    pub metadata_hash: Seq<u8>,
    pub bond: int,
    pub pending_unstake: int,
    pub unstake_time: int,
    pub reputation: int,
    pub status: ServiceStatus,
    pub registered_at: int,
    pub last_slash_time: int,
    pub reward_per_token_paid: int,
    pub accrued_rewards: int,
}

impl View for ServiceInfo {
    type V = ServiceView;

    open spec fn view(&self) -> ServiceView {
        ServiceView {
            owner: self.owner@,
            metadata_hash: self.metadata_hash@,
            bond: self.bond as int,
            pending_unstake: self.pending_unstake as int,
            unstake_time: self.unstake_time as int,
            reputation: self.reputation as int,
            status: self.status,
            registered_at: self.registered_at as int,
            last_slash_time: self.last_slash_time as int,
            reward_per_token_paid: self.reward_per_token_paid as int,
            accrued_rewards: self.accrued_rewards as int,
        }
    }
}

/// Published when a service registers.
pub struct RegisterEvent {
    pub service: AccountId,
    pub bond: i128,
    pub metadata: Vec<u8>,
}

/// Published when a service replaces its metadata.
pub struct UpdateMetadataEvent {
    pub service: AccountId,
    pub metadata: Vec<u8>,
}

/// Published when a service starts unbonding its whole bond.
pub struct DeregisterEvent {
    pub service: AccountId,
    pub bond: i128,
}

/// Published when a service adds to its bond.
pub struct StakeEvent {
    pub service: AccountId,
    pub amount: i128,
}

/// Published when a service starts unbonding part of its bond.
pub struct UnstakeEvent {
    pub service: AccountId,
    pub amount: i128,
}

/// Published when unbonded tokens are paid back.
pub struct WithdrawEvent {
    pub service: AccountId,
    pub amount: i128,
}

/// Published when a bond is slashed.
pub struct SlashEvent {
    pub service: AccountId,
    pub amount: i128,
}

/// Published when a service claims its rewards.
pub struct ClaimEvent {
    pub service: AccountId,
    pub amount: i128,
}

/// Published when the reward pool is seeded.
#[derive(Clone, Copy, Debug, PartialEq, Eq, Structural)]
pub struct RewardEvent {
    pub amount: i128,
    pub duration: u64,
}

/// Published when the admin role changes hands.
pub struct SetAdminEvent {
    pub old_admin: AccountId,
    pub new_admin: AccountId,
}

/// Published when the dispute resolver is set.
pub struct SetDisputeResolverEvent {
    pub resolver: AccountId,
}

/// Published when the treasury is set.
pub struct SetTreasuryEvent {
    pub treasury: AccountId,
}

} // verus!
