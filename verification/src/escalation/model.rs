//! The escalation contract as a mathematical state: filing, judging and
//! resolving disputes, and the message the evaluator signs.

use crate::escalation::slashing::slash_bps;
use crate::registry::rewards::fits_i128;
use crate::escalation::types::{ContractError, DisputeStatus, DisputeView, SlashRequestView, Verdict};
use crate::token::TokenMoveView;
use vstd::prelude::*;

verus! {

/// Longest defense window a dispute can have, in seconds: the lifetime of a
/// dispute record (518400 ledgers of about 5 seconds, some 30 days).
pub const MAX_DEFENSE_WINDOW_SECS: u64 = 518400 * 5;

/// Basis points in a whole.
pub const BPS: i128 = 10000;

/// The escalation contract's state. Disputes are numbered from 1 in the
/// order they are filed; `offenses` counts, per service, the disputes that
/// ended in a slash.
#[verifier::ext_equal]
pub struct EscalationView {
    pub admin: Seq<u8>,
    pub registry: Seq<u8>,
    pub token: Seq<u8>,
    pub evaluator_pub_key: Seq<u8>,
    pub dispute_bond: int,
    pub defense_window: int,
    pub next_dispute_id: int,
    pub disputes: Seq<DisputeView>,
    pub offenses: Map<Seq<u8>, int>,
}

/// Well-formed escalation states: positive configuration, and disputes
/// numbered 1, 2, ... in order, each with a positive bond and a clamped
/// defense window.
pub open spec fn escalation_wf(v: EscalationView) -> bool {
    &&& 0 < v.dispute_bond <= i128::MAX
    &&& v.defense_window > 0
    &&& v.evaluator_pub_key.len() == 32
    &&& v.next_dispute_id == v.disputes.len() + 1
    &&& forall|i: int|
        0 <= i < v.disputes.len() ==> {
            &&& (#[trigger] v.disputes[i]).id == i + 1
            &&& v.disputes[i].dispute_bond > 0
            &&& v.disputes[i].defense_window <= MAX_DEFENSE_WINDOW_SECS
        }
    &&& forall|k: Seq<u8>| #[trigger] v.offenses.contains_key(k) ==> 0 <= v.offenses[k] <= u32::MAX
}

/// Whether dispute `id` exists.
pub open spec fn dispute_exists(v: EscalationView, id: int) -> bool {
    1 <= id <= v.disputes.len()
}

/// Dispute `id` (meaningful when it exists).
pub open spec fn dispute_of(v: EscalationView, id: int) -> DisputeView {
    v.disputes[id - 1]
}

/// The number of slashing disputes against `service`.
pub open spec fn offense_count_of(v: EscalationView, service: Seq<u8>) -> int {
    if v.offenses.contains_key(service) { v.offenses[service] } else { 0 }
}

/// A fresh escalation contract.
pub open spec fn initial_escalation(
    admin: Seq<u8>,
    registry: Seq<u8>,
    token: Seq<u8>,
    evaluator_pub_key: Seq<u8>,
    dispute_bond: int,
    defense_window: int,
) -> EscalationView {
    EscalationView {
        admin,
        registry,
        token,
        evaluator_pub_key,
        dispute_bond,
        defense_window,
        next_dispute_id: 1,
        disputes: Seq::empty(),
        offenses: Map::empty(),
    }
}

// ---------------------------------------------------------------------------
// Filing
// ---------------------------------------------------------------------------

/// The defense window given to a new dispute: the configured window, at most
/// [`MAX_DEFENSE_WINDOW_SECS`].
pub open spec fn clamped_defense_window(v: EscalationView) -> int {
    if v.defense_window < MAX_DEFENSE_WINDOW_SECS { v.defense_window } else { MAX_DEFENSE_WINDOW_SECS as int }
}

/// The state after `client` files a dispute against `service` at `now`.
pub open spec fn filed(
    v: EscalationView,
    client: Seq<u8>,
    service: Seq<u8>,
    receipt_hash: Seq<u8>,
    encrypted_response: Seq<u8>,
    now: int,
) -> EscalationView {
    EscalationView {
        disputes: v.disputes.push(
            DisputeView {
                id: v.next_dispute_id as u64,
                client,
                service,
                receipt_hash,
                encrypted_response,
                dispute_bond: v.dispute_bond as i128,
                filed_at: now as u64,
                defense_window: clamped_defense_window(v) as u64,
                status: DisputeStatus::Open,
            },
        ),
        next_dispute_id: v.next_dispute_id + 1,
        ..v
    }
}

// ---------------------------------------------------------------------------
// Verdicts
// ---------------------------------------------------------------------------

/// Byte `k` (0 = most significant) of the big-endian form of `x`.
pub open spec fn be_byte(x: u64, k: int) -> u8 {
    ((x >> (((7 - k) * 8) as u64)) & 0xff) as u8
}

/// The byte that encodes a verdict, 0 when the client wins and 1 when the
/// service wins.
pub open spec fn verdict_byte(verdict: Verdict) -> u8 {
    match verdict {
        Verdict::ClientWins => 0,
        Verdict::ServiceWins => 1,
    }
}

/// The message the evaluator signs for a verdict on dispute `id`: the id in
/// 8 big-endian bytes followed by the verdict byte.
pub open spec fn verdict_message(id: u64, verdict: Verdict) -> Seq<u8> {
    seq![
        be_byte(id, 0),
        be_byte(id, 1),
        be_byte(id, 2),
        be_byte(id, 3),
        be_byte(id, 4),
        be_byte(id, 5),
        be_byte(id, 6),
        be_byte(id, 7),
        verdict_byte(verdict),
    ]
}

/// The last moment at which a verdict on dispute `id` is accepted: the end
/// of its defense window (saturating at `u64::MAX`).
pub open spec fn verdict_deadline(v: EscalationView, id: int) -> int {
    let d = dispute_of(v, id);
    let end = d.filed_at + d.defense_window;
    if end > u64::MAX { u64::MAX as int } else { end }
}

/// Why a verdict on dispute `id` at `now` is refused, if it is.
pub open spec fn verdict_error(v: EscalationView, id: int, now: int) -> Option<ContractError> {
    if !dispute_exists(v, id) {
        Some(ContractError::DisputeNotFound)
    } else if dispute_of(v, id).status != DisputeStatus::Open {
        Some(ContractError::DisputeAlreadyResolved)
    } else if now > verdict_deadline(v, id) {
        Some(ContractError::DefenseWindowExpired)
    } else {
        None
    }
}

/// Why a default resolution of dispute `id` at `now` is refused, if it is.
pub open spec fn resolve_error(v: EscalationView, id: int, now: int) -> Option<ContractError> {
    if !dispute_exists(v, id) {
        Some(ContractError::DisputeNotFound)
    } else if dispute_of(v, id).status != DisputeStatus::Open {
        Some(ContractError::DisputeAlreadyResolved)
    } else if now < dispute_of(v, id).filed_at + dispute_of(v, id).defense_window {
        Some(ContractError::DefenseWindowActive)
    } else {
        None
    }
}

// ---------------------------------------------------------------------------
// Resolution
// ---------------------------------------------------------------------------

/// Integer division rounding toward zero, as machine division does.
pub open spec fn div_toward_zero(a: int, b: int) -> int {
    if a >= 0 { a / b } else { -((-a) / b) }
}

/// The amount to slash from the service of dispute `id` when the client
/// wins, given the service's current bond: the progressive rate of its
/// offense history applied to the bond.
pub open spec fn client_win_slash(v: EscalationView, id: int, service_bond: int) -> int {
    div_toward_zero(
        service_bond * slash_bps(offense_count_of(v, dispute_of(v, id).service)),
        BPS as int,
    )
}

/// Whether a client-wins resolution of dispute `id` stays within the integer
/// types: the bond times the rate is an `i128`, and a slash can count one
/// more offense.
pub open spec fn client_win_fits(v: EscalationView, id: int, service_bond: int) -> bool {
    let count = offense_count_of(v, dispute_of(v, id).service);
    &&& fits_i128(service_bond * slash_bps(count))
    &&& client_win_slash(v, id, service_bond) > 0 ==> count < u32::MAX
}

/// The state with dispute `id` marked resolved.
pub open spec fn mark_resolved(v: EscalationView, id: int) -> EscalationView {
    EscalationView {
        disputes: v.disputes.update(
            id - 1,
            DisputeView { status: DisputeStatus::Resolved, ..dispute_of(v, id) },
        ),
        ..v
    }
}

/// The state after the client wins dispute `id`: when the slash is positive
/// the service's offense count goes up by one; the dispute is resolved.
pub open spec fn client_won(v: EscalationView, id: int, service_bond: int) -> EscalationView {
    let service = dispute_of(v, id).service;
    let w = mark_resolved(v, id);
    if client_win_slash(v, id, service_bond) > 0 {
        EscalationView {
            offenses: v.offenses.insert(service, offense_count_of(v, service) + 1),
            ..w
        }
    } else {
        w
    }
}

/// The tokens paid out when the client wins: the dispute bond goes back to
/// the client when the service is actually slashed.
pub open spec fn client_win_moves(v: EscalationView, id: int, service_bond: int) -> Seq<TokenMoveView> {
    let d = dispute_of(v, id);
    if client_win_slash(v, id, service_bond) > 0 {
        seq![TokenMoveView::Out { to: d.client, amount: d.dispute_bond as int }]
    } else {
        Seq::empty()
    }
}

/// The tokens paid out when the service wins: the client's dispute bond
/// goes to the service.
pub open spec fn service_win_moves(v: EscalationView, id: int) -> Seq<TokenMoveView> {
    let d = dispute_of(v, id);
    seq![TokenMoveView::Out { to: d.service, amount: d.dispute_bond as int }]
}

/// The slash the registry is asked for when the client wins dispute `id`:
/// the service loses [`client_win_slash`], and the client is the reporter.
/// There is none when that amount is not positive.
pub open spec fn client_win_request(v: EscalationView, id: int, service_bond: int) -> Option<SlashRequestView> {
    let d = dispute_of(v, id);
    if client_win_slash(v, id, service_bond) > 0 {
        Some(SlashRequestView { service: d.service, amount: client_win_slash(v, id, service_bond), reporter: d.client })
    } else {
        None
    }
}

/// The tokens paid in when a dispute is filed: the dispute bond, by the
/// client.
pub open spec fn filing_moves(v: EscalationView, client: Seq<u8>) -> Seq<TokenMoveView> {
    seq![TokenMoveView::In { from: client, amount: v.dispute_bond }]
}

/// The state after a verdict on dispute `id`.
pub open spec fn judged(v: EscalationView, id: int, verdict: Verdict, service_bond: int) -> EscalationView {
    match verdict {
        Verdict::ClientWins => client_won(v, id, service_bond),
        Verdict::ServiceWins => mark_resolved(v, id),
    }
}

/// The slash amount a verdict reports: none when the service wins.
pub open spec fn verdict_slash(v: EscalationView, id: int, verdict: Verdict, service_bond: int) -> int {
    match verdict {
        Verdict::ClientWins => client_win_slash(v, id, service_bond),
        Verdict::ServiceWins => 0,
    }
}

/// The tokens a verdict pays out.
pub open spec fn verdict_moves(v: EscalationView, id: int, verdict: Verdict, service_bond: int) -> Seq<TokenMoveView> {
    match verdict {
        Verdict::ClientWins => client_win_moves(v, id, service_bond),
        Verdict::ServiceWins => service_win_moves(v, id),
    }
}

/// The slash a verdict asks of the registry.
pub open spec fn verdict_request(
    v: EscalationView,
    id: int,
    verdict: Verdict,
    service_bond: int,
) -> Option<SlashRequestView> {
    match verdict {
        Verdict::ClientWins => client_win_request(v, id, service_bond),
        Verdict::ServiceWins => None,
    }
}

/// Whether carrying out a verdict stays within the integer types.
pub open spec fn verdict_fits(v: EscalationView, id: int, verdict: Verdict, service_bond: int) -> bool {
    verdict == Verdict::ClientWins ==> client_win_fits(v, id, service_bond)
}

/// Whether the end of the defense window of dispute `id` is a `u64`.
pub open spec fn window_end_fits(v: EscalationView, id: int) -> bool {
    dispute_of(v, id).filed_at + dispute_of(v, id).defense_window <= u64::MAX
}

} // verus!
