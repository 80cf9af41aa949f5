use crate::account::AccountId;
use crate::token::TokenMove;
use vstd::prelude::*;

verus! {

/// Why an escalation call is refused.
#[derive(Clone, Copy, Debug, PartialEq, Eq, Structural)]
pub enum ContractError {
    DisputeNotFound,
    DisputeAlreadyResolved,
    DefenseWindowActive,
    Unauthorized,
    InvalidAmount,
    DefenseWindowExpired,
}

impl ContractError {
    /// The numeric code under which the contract reports the error.
    pub fn code(&self) -> (c: u32)
        ensures
            c == self.spec_code(),
    {
        match self {
            ContractError::DisputeNotFound => 1,
            ContractError::DisputeAlreadyResolved => 2,
            ContractError::DefenseWindowActive => 3,
            ContractError::Unauthorized => 4,
            ContractError::InvalidAmount => 5,
            ContractError::DefenseWindowExpired => 6,
        }
    }

    /// The numeric code of each error.
    pub open spec fn spec_code(&self) -> u32 {
        match self {
            ContractError::DisputeNotFound => 1,
            ContractError::DisputeAlreadyResolved => 2,
            ContractError::DefenseWindowActive => 3,
            ContractError::Unauthorized => 4,
            ContractError::InvalidAmount => 5,
            ContractError::DefenseWindowExpired => 6,
        }
    }
}

/// Whether a dispute still awaits its outcome.
#[derive(Clone, Copy, Debug, PartialEq, Eq, Structural)]
pub enum DisputeStatus {
    Open,
    Resolved,
}

/// The evaluator's judgement of a dispute.
#[derive(Clone, Copy, Debug, PartialEq, Eq, Structural)]
pub enum Verdict {
    ClientWins,
    ServiceWins,
}

/// A dispute filed by a client against a service's response.
pub struct DisputeInfo {
    pub id: u64,
    pub client: AccountId,
    pub service: AccountId,
    pub receipt_hash: [u8; 32],
    pub encrypted_response: Vec<u8>,
    pub dispute_bond: i128,
    pub filed_at: u64,
    pub defense_window: u64,
    pub status: DisputeStatus,
}

/// The spec form of a [`DisputeInfo`].
pub struct DisputeView {
    pub id: u64,
    pub client: Seq<u8>,
    pub service: Seq<u8>,
    pub receipt_hash: Seq<u8>,
    pub encrypted_response: Seq<u8>,
    pub dispute_bond: i128,
    pub filed_at: u64,
    pub defense_window: u64,
    pub status: DisputeStatus,
}

impl View for DisputeInfo {
    type V = DisputeView;

    open spec fn view(&self) -> DisputeView {
        DisputeView {
            id: self.id,
            client: self.client@,
            service: self.service@,
            receipt_hash: self.receipt_hash@,
            encrypted_response: self.encrypted_response@,
            dispute_bond: self.dispute_bond,
            filed_at: self.filed_at,
            defense_window: self.defense_window,
            status: self.status,
        }
    }
}

/// Published when a dispute is filed.
pub struct DisputeEvent {
    pub id: u64,
    pub client: AccountId,
    pub service: AccountId,
    pub bond: i128,
}

/// Published when the evaluator's verdict resolves a dispute.
#[derive(Clone, Copy, Debug, PartialEq, Eq, Structural)]
pub struct VerdictEvent {
    pub id: u64,
    pub verdict: Verdict,
    pub slash_amount: i128,
}

/// Published when a dispute is resolved against the service by default.
#[derive(Clone, Copy, Debug, PartialEq, Eq, Structural)]
pub struct DefaultResolveEvent {
    pub id: u64,
    pub slash_amount: i128,
}

/// Published when the evaluator key is replaced.
pub struct SetEvaluatorEvent {
    pub pub_key: [u8; 32],
}

/// A request to the registry to slash `amount` of `service`'s bond, with
/// `reporter` receiving the reporter's share.
pub struct SlashRequest {
    pub service: AccountId,
    pub amount: i128,
    pub reporter: AccountId,
}

/// The spec form of a [`SlashRequest`].
pub struct SlashRequestView {
    pub service: Seq<u8>,
    pub amount: int,
    pub reporter: Seq<u8>,
}

impl View for SlashRequest {
    type V = SlashRequestView;

    open spec fn view(&self) -> SlashRequestView {
        SlashRequestView { service: self.service@, amount: self.amount as int, reporter: self.reporter@ }
    }
}

/// The view of an optional slash request.
pub open spec fn request_view(r: Option<SlashRequest>) -> Option<SlashRequestView> {
    match r {
        Some(x) => Some(x@),
        None => None,
    }
}

/// What resolving a dispute asks the host to do: an optional slash through
/// the registry, token movements, and the event to publish.
pub struct Resolution<E> {
    pub slash: Option<SlashRequest>,
    pub transfers: Vec<TokenMove>,
    pub event: E,
}

} // verus!
