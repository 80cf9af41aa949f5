//! The escalation contract: clients file bonded disputes against services,
//! an evaluator judges them with a signed verdict, and disputes left unjudged
//! past their defense window resolve against the service.

use crate::account::{copy_bytes, AccountId};
use crate::crypto::{ed25519_signature_valid, ed25519_verify};
use crate::escalation::lemmas::{
    lemma_offense_absent, lemma_offense_lookup, lemma_offense_push, lemma_offense_update,
};
use crate::escalation::model::{
    client_win_fits, client_win_moves, client_win_request, client_win_slash, client_won,
    dispute_exists, dispute_of, escalation_wf, filed, filing_moves, initial_escalation, judged,
    mark_resolved, offense_count_of, resolve_error, service_win_moves, verdict_error, verdict_fits,
    verdict_message, verdict_moves, verdict_request, verdict_slash, window_end_fits, EscalationView,
    BPS, MAX_DEFENSE_WINDOW_SECS,
};
use crate::escalation::slashing::compute_slash_bps;
use crate::escalation::types::{
    request_view, ContractError, DefaultResolveEvent, DisputeEvent, DisputeInfo, DisputeStatus,
    DisputeView, Resolution, SetEvaluatorEvent, SlashRequest, Verdict, VerdictEvent,
};
use crate::token::{moves_view, pay_in, pay_out, Receipt, TokenMove};
use vstd::prelude::*;

verus! {

/// The state of the dispute escalation contract. The fields are public so
/// that the host can store the state between calls and load it again; the
/// operations ask for a well-formed state ([`Escalation::wf`]) and keep it so.
pub struct Escalation {
    pub admin: AccountId,
    pub registry: AccountId,
    pub token: AccountId,
    pub evaluator_pub_key: [u8; 32],
    pub dispute_bond: i128,
    pub defense_window: u64,
    pub next_dispute_id: u64,
    pub disputes: Vec<DisputeInfo>,
    pub offenses: Vec<OffenseRecord>,
}

/// How many times a service has been slashed through disputes.
pub struct OffenseRecord {
    pub service: AccountId,
    pub count: u32,
}

/// The views of a list of disputes.
pub open spec fn disputes_view(s: Seq<DisputeInfo>) -> Seq<DisputeView> {
    s.map_values(|d: DisputeInfo| d@)
}

/// No two offense records are for the same service.
pub open spec fn offenses_unique(s: Seq<OffenseRecord>) -> bool {
    forall|a: int, b: int|
        0 <= a < s.len() && 0 <= b < s.len() && a != b ==> (#[trigger] s[a]).service@ != (#[trigger] s[b]).service@
}

/// The offense counts held in a list of records, by service.
pub open spec fn offense_map(s: Seq<OffenseRecord>) -> Map<Seq<u8>, int> {
    Map::new(
        |k: Seq<u8>| exists|j: int| 0 <= j < s.len() && (#[trigger] s[j]).service@ == k,
        |k: Seq<u8>| s[choose|j: int| 0 <= j < s.len() && (#[trigger] s[j]).service@ == k].count as int,
    )
}

impl View for Escalation {
    type V = EscalationView;

    closed spec fn view(&self) -> EscalationView {
        EscalationView {
            admin: self.admin@,
            registry: self.registry@,
            token: self.token@,
            evaluator_pub_key: self.evaluator_pub_key@,
            dispute_bond: self.dispute_bond as int,
            defense_window: self.defense_window as int,
            next_dispute_id: self.next_dispute_id as int,
            disputes: disputes_view(self.disputes@),
            offenses: offense_map(self.offenses@),
        }
    }
}

/// A copy of a dispute record.
fn copy_dispute(d: &DisputeInfo) -> (r: DisputeInfo)
    ensures
        r@ == d@,
{
    DisputeInfo {
        id: d.id,
        client: d.client.duplicate(),
        service: d.service.duplicate(),
        receipt_hash: d.receipt_hash,
        encrypted_response: copy_bytes(&d.encrypted_response),
        dispute_bond: d.dispute_bond,
        filed_at: d.filed_at,
        defense_window: d.defense_window,
        status: d.status,
    }
}

impl Escalation {
    /// The contract's state is well formed: [`escalation_wf`] holds of its
    /// view, and each service has at most one offense record.
    pub closed spec fn wf(&self) -> bool {
        &&& escalation_wf(self@)
        &&& offenses_unique(self.offenses@)
    }

    /// A well-formed contract has a well-formed view.
    pub proof fn lemma_wf(&self)
        requires
            self.wf(),
        ensures
            escalation_wf(self@),
    {
    }

    /// An escalation contract with its admin, the registry it slashes
    /// through, the bond token, the evaluator's Ed25519 public key, the bond
    /// a client deposits with each dispute, and the defense window.
    pub fn new(
        admin: AccountId,
        registry: AccountId,
        token: AccountId,
        evaluator_pub_key: [u8; 32],
        dispute_bond: i128,
        defense_window: u64,
    ) -> (r: Escalation)
        requires
            dispute_bond > 0,
            defense_window > 0,
        ensures
            r.wf(),
            r@ == initial_escalation(
                admin@,
                registry@,
                token@,
                evaluator_pub_key@,
                dispute_bond as int,
                defense_window as int,
            ),
    {
        let r = Escalation {
            admin,
            registry,
            token,
            evaluator_pub_key,
            dispute_bond,
            defense_window,
            next_dispute_id: 1,
            disputes: Vec::new(),
            offenses: Vec::new(),
        };
        assert(r@ =~= initial_escalation(
            r.admin@,
            r.registry@,
            r.token@,
            evaluator_pub_key@,
            dispute_bond as int,
            defense_window as int,
        ));
        r
    }

    /// The position of the offense record of `service`, if it has one.
    fn find_offense(&self, service: &AccountId) -> (r: Option<usize>)
        requires
            self.wf(),
        ensures
            match r {
                Some(i) => {
                    &&& i < self.offenses@.len()
                    &&& self.offenses@[i as int].service@ == service@
                    &&& self@.offenses.contains_key(service@)
                    &&& self@.offenses[service@] == self.offenses@[i as int].count as int
                },
                None => !self@.offenses.contains_key(service@),
            },
    {
        let mut i: usize = 0;
        while i < self.offenses.len()
            invariant
                self.wf(),
                i <= self.offenses@.len(),
                forall|j: int| 0 <= j < i ==> (#[trigger] self.offenses@[j]).service@ != service@,
            decreases self.offenses@.len() - i,
        {
            if self.offenses[i].service.same_as(service) {
                proof {
                    lemma_offense_lookup(self.offenses@, i as int);
                }
                return Some(i);
            }
            i = i + 1;
        }
        proof {
            lemma_offense_absent(self.offenses@, service@);
        }
        None
    }

    /// How many disputes against `service` have ended in a slash.
    pub fn offense_count(&self, service: &AccountId) -> (c: u32)
        requires
            self.wf(),
        ensures
            c == offense_count_of(self@, service@),
    {
        match self.find_offense(service) {
            Some(i) => self.offenses[i].count,
            None => 0,
        }
    }

    /// The position of dispute `id`, if it exists.
    fn dispute_index(&self, id: u64) -> (r: Option<usize>)
        requires
            self.wf(),
        ensures
            match r {
                Some(i) => {
                    &&& dispute_exists(self@, id as int)
                    &&& i == id - 1
                    &&& i < self.disputes@.len()
                },
                None => !dispute_exists(self@, id as int),
            },
    {
        if id >= 1 && id - 1 < self.disputes.len() as u64 {
            Some((id - 1) as usize)
        } else {
            None
        }
    }

    /// Files a dispute by `client` against `service` at `now`: the client pays
    /// in the dispute bond, and the dispute gets the next id and a defense
    /// window of at most [`MAX_DEFENSE_WINDOW_SECS`]. Returns the id.
    pub fn dispute(
        &mut self,
        client: &AccountId,
        service: &AccountId,
        receipt_hash: [u8; 32],
        encrypted_response: Vec<u8>,
        now: u64,
    ) -> (r: Result<(u64, Receipt<DisputeEvent>), ContractError>)
        requires
            old(self).wf(),
            old(self)@.next_dispute_id < u64::MAX,
        ensures
            final(self).wf(),
            r is Ok,
            r matches Ok((id, rc)) && {
                &&& id == old(self)@.next_dispute_id
                &&& final(self)@ == filed(
                    old(self)@,
                    client@,
                    service@,
                    receipt_hash@,
                    encrypted_response@,
                    now as int,
                )
                &&& moves_view(rc.transfers@) == filing_moves(old(self)@, client@)
                &&& rc.event.id == id
                &&& rc.event.client@ == client@
                &&& rc.event.service@ == service@
                &&& rc.event.bond == old(self)@.dispute_bond
            },
    {
        let ghost v0 = self@;
        let ghost er = encrypted_response@;
        let bond = self.dispute_bond;
        let dw = if self.defense_window < MAX_DEFENSE_WINDOW_SECS {
            self.defense_window
        } else {
            MAX_DEFENSE_WINDOW_SECS
        };
        let id = self.next_dispute_id;
        let info = DisputeInfo {
            id,
            client: client.duplicate(),
            service: service.duplicate(),
            receipt_hash,
            encrypted_response,
            dispute_bond: bond,
            filed_at: now,
            defense_window: dw,
            status: DisputeStatus::Open,
        };
        let ghost iv = info@;
        self.disputes.push(info);
        self.next_dispute_id = id + 1;
        proof {
            assert(disputes_view(self.disputes@) =~= v0.disputes.push(iv));
            assert(self@ =~= filed(v0, client@, service@, receipt_hash@, er, now as int));
        }
        let transfers = vec![pay_in(client, bond)];
        proof {
            assert(moves_view(transfers@) =~= filing_moves(v0, client@));
        }
        Ok((id, Receipt { transfers, event: DisputeEvent { id, client: client.duplicate(), service: service.duplicate(), bond } }))
    }

    /// Marks the dispute at `idx` resolved.
    fn mark_dispute_resolved(&mut self, idx: usize)
        requires
            old(self).wf(),
            idx < old(self).disputes@.len(),
        ensures
            final(self).wf(),
            final(self)@ == mark_resolved(old(self)@, idx + 1),
    {
        let ghost v0 = self@;
        let mut d = copy_dispute(&self.disputes[idx]);
        d.status = DisputeStatus::Resolved;
        let ghost dv = d@;
        self.disputes.set(idx, d);
        proof {
            assert(disputes_view(self.disputes@) =~= v0.disputes.update(idx as int, dv));
            assert(self@ =~= mark_resolved(v0, idx + 1));
        }
    }

    /// Counts one more offense against `service`.
    fn add_offense(&mut self, service: &AccountId)
        requires
            old(self).wf(),
            offense_count_of(old(self)@, service@) < u32::MAX,
        ensures
            final(self).wf(),
            final(self)@ == (EscalationView {
                offenses: old(self)@.offenses.insert(service@, offense_count_of(old(self)@, service@) + 1),
                ..old(self)@
            }),
    {
        let ghost v0 = self@;
        match self.find_offense(service) {
            Some(i) => {
                let rec = OffenseRecord { service: service.duplicate(), count: self.offenses[i].count + 1 };
                proof {
                    lemma_offense_update(self.offenses@, i as int, rec);
                }
                self.offenses.set(i, rec);
            },
            None => {
                let rec = OffenseRecord { service: service.duplicate(), count: 1 };
                proof {
                    lemma_offense_push(self.offenses@, rec);
                }
                self.offenses.push(rec);
            },
        }
        assert(self@ =~= EscalationView {
            offenses: v0.offenses.insert(service@, offense_count_of(v0, service@) + 1),
            ..v0
        });
    }

    /// Resolves the dispute at `idx` for the client, given the service's
    /// current bond: the progressive share of the bond is to be slashed with
    /// the client as reporter, and when it is positive the offense is
    /// counted and the client's dispute bond goes back to the client.
    /// Returns the slash amount, the slash to request and the payouts.
    fn resolve_client_wins(&mut self, idx: usize, service_bond: i128) -> (r: (i128, Option<SlashRequest>, Vec<TokenMove>))
        requires
            old(self).wf(),
            idx < old(self).disputes@.len(),
            client_win_fits(old(self)@, idx + 1, service_bond as int),
        ensures
            final(self).wf(),
            final(self)@ == client_won(old(self)@, idx + 1, service_bond as int),
            r.0 == client_win_slash(old(self)@, idx + 1, service_bond as int),
            request_view(r.1) == client_win_request(old(self)@, idx + 1, service_bond as int),
            moves_view(r.2@) == client_win_moves(old(self)@, idx + 1, service_bond as int),
    {
        let ghost v0 = self@;
        let ghost id: int = idx + 1;
        assert(dispute_of(v0, id) == self.disputes@[idx as int]@);
        let count = self.offense_count(&self.disputes[idx].service);
        let bps = compute_slash_bps(count);
        let slash = service_bond * (bps as i128) / BPS;
        if slash > 0 {
            let service = self.disputes[idx].service.duplicate();
            let client = self.disputes[idx].client.duplicate();
            let bond = self.disputes[idx].dispute_bond;
            self.add_offense(&service);
            let ghost v1 = self@;
            self.mark_dispute_resolved(idx);
            proof {
                assert(dispute_of(v1, id) == dispute_of(v0, id));
                assert(self@ =~= client_won(v0, id, service_bond as int));
            }
            let transfers = vec![pay_out(&client, bond)];
            proof {
                assert(moves_view(transfers@) =~= client_win_moves(v0, id, service_bond as int));
            }
            (slash, Some(SlashRequest { service, amount: slash, reporter: client }), transfers)
        } else {
            self.mark_dispute_resolved(idx);
            let transfers: Vec<TokenMove> = Vec::new();
            proof {
                assert(moves_view(transfers@) =~= client_win_moves(v0, id, service_bond as int));
            }
            (slash, None, transfers)
        }
    }

    /// Carries out the evaluator's verdict on dispute `dispute_id` at `now`,
    /// given whether its signature checked out and the service's current
    /// bond. `None`: the signature is not valid and nothing changes.
    pub fn apply_verdict(
        &mut self,
        dispute_id: u64,
        verdict: Verdict,
        signature_valid: bool,
        service_bond: i128,
        now: u64,
    ) -> (r: Result<Option<Resolution<VerdictEvent>>, ContractError>)
        requires
            old(self).wf(),
            verdict_error(old(self)@, dispute_id as int, now as int) is None && signature_valid ==> verdict_fits(
                old(self)@,
                dispute_id as int,
                verdict,
                service_bond as int,
            ),
        ensures
            final(self).wf(),
            match r {
                Err(e) => {
                    &&& verdict_error(old(self)@, dispute_id as int, now as int) == Some(e)
                    &&& final(self)@ == old(self)@
                },
                Ok(None) => {
                    &&& verdict_error(old(self)@, dispute_id as int, now as int) is None
                    &&& !signature_valid
                    &&& final(self)@ == old(self)@
                },
                Ok(Some(res)) => {
                    &&& verdict_error(old(self)@, dispute_id as int, now as int) is None
                    &&& signature_valid
                    &&& final(self)@ == judged(old(self)@, dispute_id as int, verdict, service_bond as int)
                    &&& res.event == VerdictEvent {
                        id: dispute_id,
                        verdict,
                        slash_amount: verdict_slash(old(self)@, dispute_id as int, verdict, service_bond as int) as i128,
                    }
                    &&& moves_view(res.transfers@) == verdict_moves(
                        old(self)@,
                        dispute_id as int,
                        verdict,
                        service_bond as int,
                    )
                    &&& request_view(res.slash) == verdict_request(
                        old(self)@,
                        dispute_id as int,
                        verdict,
                        service_bond as int,
                    )
                },
            },
    {
        let idx = match self.dispute_index(dispute_id) {
            None => return Err(ContractError::DisputeNotFound),
            Some(i) => i,
        };
        let ghost v0 = self@;
        assert(dispute_of(v0, dispute_id as int) == self.disputes@[idx as int]@);
        if self.disputes[idx].status != DisputeStatus::Open {
            return Err(ContractError::DisputeAlreadyResolved);
        }
        if now > self.disputes[idx].filed_at.saturating_add(self.disputes[idx].defense_window) {
            return Err(ContractError::DefenseWindowExpired);
        }
        if !signature_valid {
            return Ok(None);
        }
        match verdict {
            Verdict::ClientWins => {
                let (slash, request, transfers) = self.resolve_client_wins(idx, service_bond);
                Ok(Some(Resolution { slash: request, transfers, event: VerdictEvent { id: dispute_id, verdict, slash_amount: slash } }))
            },
            Verdict::ServiceWins => {
                let transfers = vec![pay_out(&self.disputes[idx].service, self.disputes[idx].dispute_bond)];
                proof {
                    assert(moves_view(transfers@) =~= service_win_moves(v0, dispute_id as int));
                }
                self.mark_dispute_resolved(idx);
                Ok(Some(Resolution { slash: None, transfers, event: VerdictEvent { id: dispute_id, verdict, slash_amount: 0 } }))
            },
        }
    }

    /// The evaluator submits its Ed25519-signed verdict on dispute
    /// `dispute_id` at `now`; the signed message is [`verdict_message`]. The
    /// service's current bond is passed in for a client win. `None`: the
    /// signature does not verify under the evaluator's key, and nothing
    /// changes.
    pub fn submit_verdict(
        &mut self,
        dispute_id: u64,
        verdict: Verdict,
        signature: &[u8; 64],
        service_bond: i128,
        now: u64,
    ) -> (r: Result<Option<Resolution<VerdictEvent>>, ContractError>)
        requires
            old(self).wf(),
            verdict_error(old(self)@, dispute_id as int, now as int) is None ==> verdict_fits(
                old(self)@,
                dispute_id as int,
                verdict,
                service_bond as int,
            ),
        ensures
            final(self).wf(),
            match r {
                Err(e) => {
                    &&& verdict_error(old(self)@, dispute_id as int, now as int) == Some(e)
                    &&& final(self)@ == old(self)@
                },
                Ok(None) => {
                    &&& verdict_error(old(self)@, dispute_id as int, now as int) is None
                    &&& !ed25519_signature_valid(
                        old(self)@.evaluator_pub_key,
                        verdict_message(dispute_id, verdict),
                        signature@,
                    )
                    &&& final(self)@ == old(self)@
                },
                Ok(Some(res)) => {
                    &&& verdict_error(old(self)@, dispute_id as int, now as int) is None
                    &&& ed25519_signature_valid(
                        old(self)@.evaluator_pub_key,
                        verdict_message(dispute_id, verdict),
                        signature@,
                    )
                    &&& final(self)@ == judged(old(self)@, dispute_id as int, verdict, service_bond as int)
                    &&& res.event == VerdictEvent {
                        id: dispute_id,
                        verdict,
                        slash_amount: verdict_slash(old(self)@, dispute_id as int, verdict, service_bond as int) as i128,
                    }
                    &&& moves_view(res.transfers@) == verdict_moves(
                        old(self)@,
                        dispute_id as int,
                        verdict,
                        service_bond as int,
                    )
                    &&& request_view(res.slash) == verdict_request(
                        old(self)@,
                        dispute_id as int,
                        verdict,
                        service_bond as int,
                    )
                },
            },
    {
        let message = verdict_message_bytes(dispute_id, verdict);
        let valid = ed25519_verify(&self.evaluator_pub_key, message.as_slice(), signature);
        self.apply_verdict(dispute_id, verdict, valid, service_bond, now)
    }

    /// Resolves dispute `dispute_id` against the service once its defense
    /// window has passed without a verdict, given the service's current bond.
    /// Anyone may call it.
    pub fn resolve(&mut self, dispute_id: u64, service_bond: i128, now: u64) -> (r: Result<
        Resolution<DefaultResolveEvent>,
        ContractError,
    >)
        requires
            old(self).wf(),
            dispute_exists(old(self)@, dispute_id as int) && dispute_of(old(self)@, dispute_id as int).status
                == DisputeStatus::Open ==> window_end_fits(old(self)@, dispute_id as int),
            resolve_error(old(self)@, dispute_id as int, now as int) is None ==> client_win_fits(
                old(self)@,
                dispute_id as int,
                service_bond as int,
            ),
        ensures
            final(self).wf(),
            match r {
                Err(e) => {
                    &&& resolve_error(old(self)@, dispute_id as int, now as int) == Some(e)
                    &&& final(self)@ == old(self)@
                },
                Ok(res) => {
                    &&& resolve_error(old(self)@, dispute_id as int, now as int) is None
                    &&& final(self)@ == client_won(old(self)@, dispute_id as int, service_bond as int)
                    &&& res.event == DefaultResolveEvent {
                        id: dispute_id,
                        slash_amount: client_win_slash(old(self)@, dispute_id as int, service_bond as int) as i128,
                    }
                    &&& moves_view(res.transfers@) == client_win_moves(
                        old(self)@,
                        dispute_id as int,
                        service_bond as int,
                    )
                    &&& request_view(res.slash) == client_win_request(
                        old(self)@,
                        dispute_id as int,
                        service_bond as int,
                    )
                },
            },
    {
        let idx = match self.dispute_index(dispute_id) {
            None => return Err(ContractError::DisputeNotFound),
            Some(i) => i,
        };
        assert(dispute_of(self@, dispute_id as int) == self.disputes@[idx as int]@);
        if self.disputes[idx].status != DisputeStatus::Open {
            return Err(ContractError::DisputeAlreadyResolved);
        }
        if now < self.disputes[idx].filed_at + self.disputes[idx].defense_window {
            return Err(ContractError::DefenseWindowActive);
        }
        let (slash, request, transfers) = self.resolve_client_wins(idx, service_bond);
        Ok(Resolution { slash: request, transfers, event: DefaultResolveEvent { id: dispute_id, slash_amount: slash } })
    }

    /// Replaces the evaluator's public key.
    pub fn set_evaluator_pub_key(&mut self, pub_key: [u8; 32]) -> (ev: SetEvaluatorEvent)
        requires
            old(self).wf(),
        ensures
            final(self).wf(),
            final(self)@ == (EscalationView { evaluator_pub_key: pub_key@, ..old(self)@ }),
            ev.pub_key == pub_key,
    {
        self.evaluator_pub_key = pub_key;
        assert(self@.disputes == old(self)@.disputes);
        SetEvaluatorEvent { pub_key }
    }

    /// Replaces the bond a client deposits with each new dispute.
    pub fn set_dispute_bond(&mut self, bond: i128)
        requires
            old(self).wf(),
            bond > 0,
        ensures
            final(self).wf(),
            final(self)@ == (EscalationView { dispute_bond: bond as int, ..old(self)@ }),
    {
        self.dispute_bond = bond;
    }

    /// Dispute `dispute_id`.
    pub fn get_dispute(&self, dispute_id: u64) -> (r: Result<DisputeInfo, ContractError>)
        requires
            self.wf(),
        ensures
            match r {
                Err(e) => !dispute_exists(self@, dispute_id as int) && e == ContractError::DisputeNotFound,
                Ok(d) => dispute_exists(self@, dispute_id as int) && d@ == dispute_of(self@, dispute_id as int),
            },
    {
        match self.dispute_index(dispute_id) {
            None => Err(ContractError::DisputeNotFound),
            Some(i) => Ok(copy_dispute(&self.disputes[i])),
        }
    }

    /// The bond a client deposits with a new dispute.
    pub fn dispute_bond_amount(&self) -> (b: i128)
        ensures
            b == self@.dispute_bond,
    {
        self.dispute_bond
    }

    /// The admin, who may replace the evaluator key and the dispute bond.
    pub fn admin(&self) -> (a: AccountId)
        ensures
            a@ == self@.admin,
    {
        self.admin.duplicate()
    }

    /// The registry through which services are slashed.
    pub fn registry(&self) -> (a: AccountId)
        ensures
            a@ == self@.registry,
    {
        self.registry.duplicate()
    }

    /// The bond token.
    pub fn token(&self) -> (a: AccountId)
        ensures
            a@ == self@.token,
    {
        self.token.duplicate()
    }

    /// Whether a client win of the dispute at `idx` stays within the integer
    /// types.
    fn client_win_checked(&self, idx: usize, service_bond: i128) -> (ok: bool)
        requires
            self.wf(),
            idx < self.disputes@.len(),
        ensures
            ok == client_win_fits(self@, idx + 1, service_bond as int),
    {
        assert(dispute_of(self@, idx + 1) == self.disputes@[idx as int]@);
        let count = self.offense_count(&self.disputes[idx].service);
        let bps = compute_slash_bps(count);
        match service_bond.checked_mul(bps as i128) {
            None => false,
            Some(product) => product / BPS <= 0 || count < u32::MAX,
        }
    }

    /// Whether filing a dispute stays within the integer types (the
    /// condition [`Escalation::dispute`] requires).
    pub fn dispute_in_range(&self) -> (ok: bool)
        ensures
            ok == (self@.next_dispute_id < u64::MAX),
    {
        self.next_dispute_id < u64::MAX
    }

    /// Whether carrying out a verdict stays within the integer types (the
    /// condition [`Escalation::submit_verdict`] requires).
    pub fn verdict_in_range(&self, dispute_id: u64, verdict: Verdict, service_bond: i128, now: u64) -> (ok: bool)
        requires
            self.wf(),
        ensures
            ok == (verdict_error(self@, dispute_id as int, now as int) is None ==> verdict_fits(
                self@,
                dispute_id as int,
                verdict,
                service_bond as int,
            )),
    {
        let idx = match self.dispute_index(dispute_id) {
            None => return true,
            Some(i) => i,
        };
        assert(dispute_of(self@, dispute_id as int) == self.disputes@[idx as int]@);
        if self.disputes[idx].status != DisputeStatus::Open
            || now > self.disputes[idx].filed_at.saturating_add(self.disputes[idx].defense_window) {
            return true;
        }
        match verdict {
            Verdict::ClientWins => self.client_win_checked(idx, service_bond),
            Verdict::ServiceWins => true,
        }
    }

    /// Whether a default resolution stays within the integer types (the
    /// condition [`Escalation::resolve`] requires).
    pub fn resolve_in_range(&self, dispute_id: u64, service_bond: i128, now: u64) -> (ok: bool)
        requires
            self.wf(),
        ensures
            ok == ({
                &&& dispute_exists(self@, dispute_id as int) && dispute_of(self@, dispute_id as int).status
                    == DisputeStatus::Open ==> window_end_fits(self@, dispute_id as int)
                &&& resolve_error(self@, dispute_id as int, now as int) is None ==> client_win_fits(
                    self@,
                    dispute_id as int,
                    service_bond as int,
                )
            }),
    {
        let idx = match self.dispute_index(dispute_id) {
            None => return true,
            Some(i) => i,
        };
        assert(dispute_of(self@, dispute_id as int) == self.disputes@[idx as int]@);
        if self.disputes[idx].status != DisputeStatus::Open {
            return true;
        }
        match self.disputes[idx].filed_at.checked_add(self.disputes[idx].defense_window) {
            None => false,
            Some(end) => now < end || self.client_win_checked(idx, service_bond),
        }
    }
}

/// The message the evaluator signs for `verdict` on dispute `id`.
pub fn verdict_message_bytes(id: u64, verdict: Verdict) -> (m: Vec<u8>)
    ensures
        m@ == verdict_message(id, verdict),
{
    let mut m: Vec<u8> = Vec::new();
    m.push(((id >> 56u64) & 0xff) as u8);
    m.push(((id >> 48u64) & 0xff) as u8);
    m.push(((id >> 40u64) & 0xff) as u8);
    m.push(((id >> 32u64) & 0xff) as u8);
    m.push(((id >> 24u64) & 0xff) as u8);
    m.push(((id >> 16u64) & 0xff) as u8);
    m.push(((id >> 8u64) & 0xff) as u8);
    m.push((id & 0xff) as u8);
    m.push(
        match verdict {
            Verdict::ClientWins => 0u8,
            Verdict::ServiceWins => 1u8,
        },
    );
    proof {
        assert(id >> 0u64 == id) by (bit_vector);
        assert(m@ =~= verdict_message(id, verdict));
    }
    m
}

} // verus!
