//! What holds of the escalation contract across calls, and of its work with
//! the registry.

use crate::escalation::model::{
    client_win_moves, client_win_request, client_win_slash, client_won, dispute_exists, dispute_of,
    escalation_wf, filed, judged, mark_resolved, offense_count_of, resolve_error,
    service_win_moves, verdict_error, verdict_message, verdict_request, window_end_fits,
    EscalationView,
};
use crate::escalation::slashing::{slash_bps, BASE_SLASH_BPS, MAX_SLASH_BPS};
use crate::escalation::types::{ContractError, DisputeStatus, SlashRequestView, Verdict};
use crate::registry::model::{
    is_registered, registry_wf, service_of, slash_amount_of, slash_error, RegistryView,
};
use crate::token::TokenMoveView;
use vstd::prelude::*;

verus! {

/// Disputes are numbered in the order they are filed: a new dispute gets the
/// next id, the next id after it is one more, and earlier disputes are kept
/// as they were.
pub proof fn law_dispute_ids_sequential(
    v: EscalationView,
    client: Seq<u8>,
    service: Seq<u8>,
    receipt_hash: Seq<u8>,
    encrypted_response: Seq<u8>,
    now: int,
)
    requires
        escalation_wf(v),
        0 <= v.next_dispute_id < u64::MAX,
        0 <= now <= u64::MAX,
    ensures
        ({
            let w = filed(v, client, service, receipt_hash, encrypted_response, now);
            &&& escalation_wf(w)
            &&& w.next_dispute_id == v.next_dispute_id + 1
            &&& dispute_exists(w, v.next_dispute_id)
            &&& dispute_of(w, v.next_dispute_id).id == v.next_dispute_id
            &&& dispute_of(w, v.next_dispute_id).client == client
            &&& dispute_of(w, v.next_dispute_id).service == service
            &&& dispute_of(w, v.next_dispute_id).status == DisputeStatus::Open
            &&& forall|id: int| dispute_exists(v, id) ==> dispute_of(w, id) == dispute_of(v, id)
        }),
{
    let w = filed(v, client, service, receipt_hash, encrypted_response, now);
    assert forall|i: int| 0 <= i < w.disputes.len() implies {
        &&& (#[trigger] w.disputes[i]).id == i + 1
        &&& w.disputes[i].dispute_bond > 0
        &&& w.disputes[i].defense_window <= crate::escalation::model::MAX_DEFENSE_WINDOW_SECS
    } by {
        if i < v.disputes.len() {
            assert(w.disputes[i] == v.disputes[i]);
        }
    }
}

/// A resolved dispute stays resolved: once a verdict or a default resolution
/// has been carried out, every later verdict or resolution of it is refused
/// as already resolved.
pub proof fn law_resolution_is_final(v: EscalationView, id: int, verdict: Verdict, service_bond: int, now: int)
    requires
        escalation_wf(v),
        dispute_exists(v, id),
    ensures
        verdict_error(judged(v, id, verdict, service_bond), id, now) == Some(ContractError::DisputeAlreadyResolved),
        resolve_error(judged(v, id, verdict, service_bond), id, now) == Some(ContractError::DisputeAlreadyResolved),
        verdict_error(client_won(v, id, service_bond), id, now) == Some(ContractError::DisputeAlreadyResolved),
        resolve_error(client_won(v, id, service_bond), id, now) == Some(ContractError::DisputeAlreadyResolved),
{
    assert(mark_resolved(v, id).disputes.len() == v.disputes.len());
    assert(dispute_of(mark_resolved(v, id), id).status == DisputeStatus::Resolved);
}

/// Resolving a dispute leaves every other dispute as it was, and keeps the
/// numbering of disputes.
pub proof fn law_resolution_is_local(v: EscalationView, id: int, other: int, verdict: Verdict, service_bond: int)
    requires
        escalation_wf(v),
        dispute_exists(v, id),
        dispute_exists(v, other),
        other != id,
    ensures
        dispute_of(judged(v, id, verdict, service_bond), other) == dispute_of(v, other),
        judged(v, id, verdict, service_bond).next_dispute_id == v.next_dispute_id,
        judged(v, id, verdict, service_bond).disputes.len() == v.disputes.len(),
{
}

/// An open dispute can always be settled: up to the end of its defense
/// window the evaluator's verdict is accepted, from that end on a default
/// resolution is, and before it a default resolution is refused as early,
/// after it a verdict as late.
pub proof fn law_open_dispute_settleable(v: EscalationView, id: int, now: int)
    requires
        escalation_wf(v),
        dispute_exists(v, id),
        dispute_of(v, id).status == DisputeStatus::Open,
        window_end_fits(v, id),
    ensures
        verdict_error(v, id, now) is None || resolve_error(v, id, now) is None,
        now < dispute_of(v, id).filed_at + dispute_of(v, id).defense_window ==> verdict_error(v, id, now) is None
            && resolve_error(v, id, now) == Some(ContractError::DefenseWindowActive),
        now > dispute_of(v, id).filed_at + dispute_of(v, id).defense_window ==> resolve_error(v, id, now) is None
            && verdict_error(v, id, now) == Some(ContractError::DefenseWindowExpired),
{
}

/// The slash rate grows with the offense history: 10% for a first offense,
/// 5% more for each earlier one, and never more than 100%.
pub proof fn law_slash_rate_progressive(c1: int, c2: int)
    requires
        0 <= c1 <= c2,
    ensures
        BASE_SLASH_BPS <= slash_bps(c1) <= slash_bps(c2) <= MAX_SLASH_BPS,
        slash_bps(0) == BASE_SLASH_BPS,
        slash_bps(c1 + 1) == (if slash_bps(c1) + 500 < MAX_SLASH_BPS { slash_bps(c1) + 500 } else {
            MAX_SLASH_BPS as int
        }),
{
}

/// When the client wins, the service loses the progressive share of its
/// bond: never a negative amount and never more than the bond.
pub proof fn law_client_win_slash_within_bond(v: EscalationView, id: int, service_bond: int)
    requires
        escalation_wf(v),
        service_bond >= 0,
    ensures
        0 <= client_win_slash(v, id, service_bond) <= service_bond,
        offense_count_of(v, dispute_of(v, id).service) == 0 ==> client_win_slash(v, id, service_bond)
            == service_bond * 1000 / 10000,
        ({
            let c = offense_count_of(v, dispute_of(v, id).service);
            client_win_slash(v, id, service_bond) == service_bond * (if 1000 + 500 * c < 10000 {
                1000 + 500 * c
            } else {
                10000
            }) / 10000
        }),
{
    let c = offense_count_of(v, dispute_of(v, id).service);
    let bps = slash_bps(c);
    if v.offenses.contains_key(dispute_of(v, id).service) {
        assert(c >= 0);
    }
    assert(0 <= service_bond * bps / 10000 <= service_bond) by (nonlinear_arith)
        requires
            service_bond >= 0,
            0 <= bps <= 10000,
    ;
}

/// An offense is counted exactly when a client win slashes the service:
/// its count goes up by one, every other service's count stays, and a win
/// of the service counts nothing.
pub proof fn law_offense_counted_on_slash(v: EscalationView, id: int, service_bond: int, other: Seq<u8>)
    requires
        escalation_wf(v),
        dispute_exists(v, id),
        other != dispute_of(v, id).service,
    ensures
        offense_count_of(client_won(v, id, service_bond), dispute_of(v, id).service) == offense_count_of(
            v,
            dispute_of(v, id).service,
        ) + (if client_win_slash(v, id, service_bond) > 0 { 1int } else { 0int }),
        offense_count_of(client_won(v, id, service_bond), other) == offense_count_of(v, other),
        offense_count_of(judged(v, id, Verdict::ServiceWins, service_bond), dispute_of(v, id).service)
            == offense_count_of(v, dispute_of(v, id).service),
{
}

/// The loser pays: when the service wins it receives the client's dispute
/// bond and is not slashed; when the client wins and the service is slashed,
/// the client gets its dispute bond back and is the slash's reporter.
pub proof fn law_loser_pays(v: EscalationView, id: int, service_bond: int)
    requires
        escalation_wf(v),
        dispute_exists(v, id),
    ensures
        service_win_moves(v, id) == seq![
            TokenMoveView::Out { to: dispute_of(v, id).service, amount: dispute_of(v, id).dispute_bond as int },
        ],
        verdict_request(v, id, Verdict::ServiceWins, service_bond) is None,
        client_win_slash(v, id, service_bond) > 0 ==> {
            &&& client_win_moves(v, id, service_bond) == seq![
                TokenMoveView::Out { to: dispute_of(v, id).client, amount: dispute_of(v, id).dispute_bond as int },
            ]
            &&& client_win_request(v, id, service_bond) == Some(
                SlashRequestView {
                    service: dispute_of(v, id).service,
                    amount: client_win_slash(v, id, service_bond),
                    reporter: dispute_of(v, id).client,
                },
            )
        },
{
}

/// A verdict signature binds both the dispute and the verdict; the signed
/// messages of two different (dispute, verdict) pairs differ, so a signature
/// for one pair is never a signature for another.
pub proof fn law_verdict_message_injective(id1: u64, verdict1: Verdict, id2: u64, verdict2: Verdict)
    requires
        verdict_message(id1, verdict1) == verdict_message(id2, verdict2),
    ensures
        id1 == id2,
        verdict1 == verdict2,
{
    let m1 = verdict_message(id1, verdict1);
    let m2 = verdict_message(id2, verdict2);
    assert(m1[0] == m2[0] && m1[1] == m2[1] && m1[2] == m2[2] && m1[3] == m2[3]);
    assert(m1[4] == m2[4] && m1[5] == m2[5] && m1[6] == m2[6] && m1[7] == m2[7] && m1[8] == m2[8]);
    assert(id1 == id2) by (bit_vector)
        requires
            ((id1 >> 56u64) & 0xff) as u8 == ((id2 >> 56u64) & 0xff) as u8,
            ((id1 >> 48u64) & 0xff) as u8 == ((id2 >> 48u64) & 0xff) as u8,
            ((id1 >> 40u64) & 0xff) as u8 == ((id2 >> 40u64) & 0xff) as u8,
            ((id1 >> 32u64) & 0xff) as u8 == ((id2 >> 32u64) & 0xff) as u8,
            ((id1 >> 24u64) & 0xff) as u8 == ((id2 >> 24u64) & 0xff) as u8,
            ((id1 >> 16u64) & 0xff) as u8 == ((id2 >> 16u64) & 0xff) as u8,
            ((id1 >> 8u64) & 0xff) as u8 == ((id2 >> 8u64) & 0xff) as u8,
            ((id1 >> 0u64) & 0xff) as u8 == ((id2 >> 0u64) & 0xff) as u8,
    ;
}

/// The registry carries out the slash a client win asks for, in full: when
/// the escalation contract is the registry's dispute resolver and the bond it
/// was given is the service's bond in the registry, the registry accepts the
/// request and takes exactly the requested amount.
pub proof fn law_requested_slash_taken_in_full(
    r: RegistryView,
    v: EscalationView,
    escalation: Seq<u8>,
    id: int,
)
    requires
        registry_wf(r),
        escalation_wf(v),
        dispute_exists(v, id),
        r.dispute_resolver == Some(escalation),
        is_registered(r, dispute_of(v, id).service),
        client_win_slash(v, id, service_of(r, dispute_of(v, id).service).bond) > 0,
    ensures
        ({
            let service = dispute_of(v, id).service;
            let amount = client_win_slash(v, id, service_of(r, service).bond);
            &&& slash_error(r, escalation, service, amount) is None
            &&& slash_amount_of(r, service, amount) == amount
        }),
{
    let service = dispute_of(v, id).service;
    let bond = service_of(r, service).bond;
    crate::registry::lemmas::lemma_registered_index(r, service);
    crate::registry::lemmas::lemma_total_nonneg(r);
    law_client_win_slash_within_bond(v, id, bond);
}

/// The signed message is the dispute id in eight big-endian bytes followed
/// by 0 for a client win and 1 for a service win.
pub proof fn law_verdict_message_layout(id: u64, verdict: Verdict)
    ensures
        verdict_message(id, verdict).len() == 9,
        verdict_message(id, verdict)[0] == (id / 0x100000000000000) % 256,
        verdict_message(id, verdict)[1] == (id / 0x1000000000000) % 256,
        verdict_message(id, verdict)[2] == (id / 0x10000000000) % 256,
        verdict_message(id, verdict)[3] == (id / 0x100000000) % 256,
        verdict_message(id, verdict)[4] == (id / 0x1000000) % 256,
        verdict_message(id, verdict)[5] == (id / 0x10000) % 256,
        verdict_message(id, verdict)[6] == (id / 0x100) % 256,
        verdict_message(id, verdict)[7] == id % 256,
        verdict_message(id, verdict)[8] == (if verdict == Verdict::ClientWins { 0int } else { 1int }),
{
    let m = verdict_message(id, verdict);
    assert(((id >> 56u64) & 0xff) as u8 == (id / 0x100000000000000) % 256) by (bit_vector);
    assert(((id >> 48u64) & 0xff) as u8 == (id / 0x1000000000000) % 256) by (bit_vector);
    assert(((id >> 40u64) & 0xff) as u8 == (id / 0x10000000000) % 256) by (bit_vector);
    assert(((id >> 32u64) & 0xff) as u8 == (id / 0x100000000) % 256) by (bit_vector);
    assert(((id >> 24u64) & 0xff) as u8 == (id / 0x1000000) % 256) by (bit_vector);
    assert(((id >> 16u64) & 0xff) as u8 == (id / 0x10000) % 256) by (bit_vector);
    assert(((id >> 8u64) & 0xff) as u8 == (id / 0x100) % 256) by (bit_vector);
    assert(((id >> 0u64) & 0xff) as u8 == id % 256) by (bit_vector);
}

} // verus!
