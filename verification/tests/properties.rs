use ed25519_dalek::{Signer, SigningKey};
use lightsurge::account::AccountId;
use lightsurge::escalation::contract::{verdict_message_bytes, Escalation};
use lightsurge::escalation::model::MAX_DEFENSE_WINDOW_SECS;
use lightsurge::escalation::slashing::compute_slash_bps;
use lightsurge::escalation::types::{ContractError as EscalationError, DisputeStatus, Verdict};
use lightsurge::registry::contract::Registry;
use lightsurge::registry::reputation::effective_reputation;
use lightsurge::registry::rewards::{earned_value, reward_per_token_value};
use lightsurge::registry::types::{ContractError as RegistryError, ServiceStatus};
use lightsurge::token::TokenMove;
use sha2::Digest;

const NOW: u64 = 1_000_000;
const WEEK: u64 = 604_800;
const DAY: u64 = 86_400;

fn id(key: &[u8]) -> AccountId {
    AccountId::new(key.to_vec())
}

fn registry() -> Registry {
    Registry::new(id(b"GADMIN"), id(b"CTOKEN"), 10_0000000, WEEK)
}

fn register(r: &mut Registry, who: &[u8], bond: i128, now: u64) {
    let env = soroban_sdk::Env::default();
    r.register(&env, &id(who), b"meta".to_vec(), bond, now).unwrap();
}

fn signing_key() -> SigningKey {
    SigningKey::from_bytes(&[42u8; 32])
}

fn escalation(window: u64) -> Escalation {
    let pub_key = signing_key().verifying_key().to_bytes();
    Escalation::new(id(b"GADMIN"), id(b"CREGISTRY"), id(b"CTOKEN"), pub_key, 5_0000000, window)
}

fn sign(key: &SigningKey, dispute_id: u64, verdict: Verdict) -> [u8; 64] {
    let msg = verdict_message_bytes(dispute_id, verdict);
    key.sign(&msg).to_bytes()
}

fn file(e: &mut Escalation, client: &[u8], service: &[u8], now: u64) -> u64 {
    let (dispute_id, _) = e.dispute(&id(client), &id(service), [1u8; 32], b"response".to_vec(), now).unwrap();
    dispute_id
}

fn outs(moves: &[TokenMove]) -> Vec<(Vec<u8>, i128)> {
    moves
        .iter()
        .map(|m| match m {
            TokenMove::In { from, amount } => (from.key.clone(), -*amount),
            TokenMove::Out { to, amount } => (to.key.clone(), *amount),
        })
        .collect()
}

// ---------------------------------------------------------------------------
// Formulas
// ---------------------------------------------------------------------------

#[test]
fn slash_rate_is_progressive_and_capped() {
    assert_eq!(compute_slash_bps(0), 1000);
    assert_eq!(compute_slash_bps(1), 1500);
    assert_eq!(compute_slash_bps(2), 2000);
    assert_eq!(compute_slash_bps(17), 9500);
    assert_eq!(compute_slash_bps(18), 10000);
    assert_eq!(compute_slash_bps(1000), 10000);
    assert_eq!(compute_slash_bps(8_589_933), 10000);
    assert_eq!(compute_slash_bps(u32::MAX), 10000);
    let mut last = 0;
    for c in 0..40u32 {
        let bps = compute_slash_bps(c);
        assert!(bps >= last && bps <= 10000);
        last = bps;
    }
}

#[test]
fn reward_per_token_and_earnings() {
    // 100 tokens over 1000 s on a total bond of 100 tokens, 500 s in.
    let rpt = reward_per_token_value(100_0000000, 0, 100_0000, 1000, 2000, 1500);
    assert_eq!(rpt, 500_000_000_000_000_000);
    assert_eq!(earned_value(100_0000000, rpt, 0, 0), 50_0000000);
    assert_eq!(earned_value(25_0000000, rpt, 0, 7), 12_5000007);
    // Nothing accrues past the end of the period, nor without bonds.
    assert_eq!(reward_per_token_value(100_0000000, 0, 100_0000, 1000, 2000, 9000), 1_000_000_000_000_000_000);
    assert_eq!(reward_per_token_value(0, 42, 100_0000, 1000, 2000, 1500), 42);
}

#[test]
fn reward_per_token_never_decreases() {
    let mut last = 0;
    for now in (1000..2500u64).step_by(100) {
        let rpt = reward_per_token_value(300_0000000, 0, 100_0000, 1000, 2000, now);
        assert!(rpt >= last);
        last = rpt;
    }
}

#[test]
fn larger_bond_never_earns_less() {
    let rpt = reward_per_token_value(100_0000000, 0, 100_0000, 1000, 2000, 1700);
    let mut last = 0;
    for bond in [0i128, 1, 10_0000000, 33_3333333, 100_0000000] {
        let e = earned_value(bond, rpt, 0, 0);
        assert!(e >= last);
        last = e;
    }
}

#[test]
fn verdict_message_layout() {
    assert_eq!(verdict_message_bytes(1, Verdict::ClientWins), vec![0, 0, 0, 0, 0, 0, 0, 1, 0]);
    assert_eq!(
        verdict_message_bytes(0x0102_0304_0506_0708, Verdict::ServiceWins),
        vec![1, 2, 3, 4, 5, 6, 7, 8, 1]
    );
    assert_eq!(verdict_message_bytes(u64::MAX, Verdict::ClientWins), vec![255, 255, 255, 255, 255, 255, 255, 255, 0]);
}

#[test]
fn verdict_messages_differ_between_disputes_and_verdicts() {
    let pairs = [
        (1u64, Verdict::ClientWins),
        (1, Verdict::ServiceWins),
        (2, Verdict::ClientWins),
        (256, Verdict::ClientWins),
        (u64::MAX, Verdict::ServiceWins),
    ];
    for (i, a) in pairs.iter().enumerate() {
        for (j, b) in pairs.iter().enumerate() {
            let same = verdict_message_bytes(a.0, a.1) == verdict_message_bytes(b.0, b.1);
            assert_eq!(same, i == j);
        }
    }
}

// ---------------------------------------------------------------------------
// Registry
// ---------------------------------------------------------------------------

#[test]
fn registry_error_codes() {
    assert_eq!(RegistryError::AlreadyRegistered.code(), 1);
    assert_eq!(RegistryError::NotRegistered.code(), 2);
    assert_eq!(RegistryError::InsufficientBond.code(), 3);
    assert_eq!(RegistryError::Unauthorized.code(), 4);
    assert_eq!(RegistryError::InvalidAmount.code(), 5);
    assert_eq!(RegistryError::ServiceNotActive.code(), 6);
    assert_eq!(RegistryError::CooldownNotPassed.code(), 7);
    assert_eq!(RegistryError::NoPendingUnstake.code(), 8);
    assert_eq!(RegistryError::PendingUnstakeExists.code(), 9);
    assert_eq!(RegistryError::BondBelowMinimum.code(), 10);
    assert_eq!(RegistryError::NothingToSlash.code(), 11);
    assert_eq!(RegistryError::ZeroRewardRate.code(), 12);
}

#[test]
fn registry_refusals_name_their_reason() {
    let mut r = registry();
    let admin = id(b"GADMIN");
    let svc = id(b"GSVC");
    let env = soroban_sdk::Env::default();
    assert_eq!(r.register(&env, &svc, vec![], 0, NOW).err(), Some(RegistryError::InvalidAmount));
    assert_eq!(r.register(&env, &svc, vec![], 9_9999999, NOW).err(), Some(RegistryError::InsufficientBond));
    register(&mut r, b"GSVC", 50_0000000, NOW);
    assert_eq!(r.register(&env, &svc, vec![], 50_0000000, NOW).err(), Some(RegistryError::AlreadyRegistered));
    assert_eq!(r.deregister(&id(b"GNOBODY"), NOW).err(), Some(RegistryError::NotRegistered));
    assert_eq!(r.withdraw(&svc, NOW).err(), Some(RegistryError::NoPendingUnstake));
    assert_eq!(r.unstake(&svc, 40_0000001, NOW).err(), Some(RegistryError::BondBelowMinimum));
    r.unstake(&svc, 10_0000000, NOW).unwrap();
    assert_eq!(r.unstake(&svc, 10_0000000, NOW).err(), Some(RegistryError::PendingUnstakeExists));
    assert_eq!(r.withdraw(&svc, NOW + WEEK - 1).err(), Some(RegistryError::CooldownNotPassed));
    assert_eq!(r.slash(&id(b"GMALLORY"), &svc, 1, &admin, NOW).err(), Some(RegistryError::Unauthorized));
    assert_eq!(r.slash(&admin, &svc, -1, &admin, NOW).err(), Some(RegistryError::InvalidAmount));
    assert_eq!(r.notify_reward_amount(0, 1000, NOW).err(), Some(RegistryError::InvalidAmount));
    assert_eq!(r.notify_reward_amount(100, 0, NOW).err(), Some(RegistryError::InvalidAmount));
    // 999 units over 1000 seconds pay out at a rate of zero.
    assert_eq!(r.notify_reward_amount(999, 1000, NOW).err(), Some(RegistryError::ZeroRewardRate));
    register(&mut r, b"GSVC2", 20_0000000, NOW);
    r.deregister(&id(b"GSVC2"), NOW).unwrap();
    assert_eq!(r.stake(&id(b"GSVC2"), 1, NOW).err(), Some(RegistryError::ServiceNotActive));
    assert_eq!(r.deregister(&id(b"GSVC2"), NOW).err(), Some(RegistryError::ServiceNotActive));
    // A refused call leaves the state as it was.
    assert_eq!(r.total_bonds(), 70_0000000);
    assert_eq!(r.bond_of(&svc), 50_0000000);
}

#[test]
fn total_bonds_is_the_sum_of_bonds() {
    let mut r = registry();
    register(&mut r, b"GA", 10_0000000, NOW);
    register(&mut r, b"GB", 25_0000000, NOW);
    register(&mut r, b"GC", 40_0000000, NOW);
    r.stake(&id(b"GB"), 5_0000000, NOW).unwrap();
    r.slash(&id(b"GADMIN"), &id(b"GC"), 15_0000000, &id(b"GR"), NOW).unwrap();
    let sum = r.bond_of(&id(b"GA")) + r.bond_of(&id(b"GB")) + r.bond_of(&id(b"GC"));
    assert_eq!(sum, 65_0000000);
    assert_eq!(r.total_bonds(), sum);
}

#[test]
fn register_then_bond_of_reads_the_bond() {
    let mut r = registry();
    assert_eq!(r.bond_of(&id(b"GA")), 0);
    register(&mut r, b"GA", 12_3456789, NOW);
    assert_eq!(r.bond_of(&id(b"GA")), 12_3456789);
    assert_eq!(r.total_bonds(), 12_3456789);
}

#[test]
fn register_stores_the_metadata_hash() {
    let mut r = registry();
    let env = soroban_sdk::Env::default();
    let rc = r.register(&env, &id(b"GA"), b"hello".to_vec(), 10_0000000, NOW).unwrap();
    assert_eq!(rc.event.metadata, b"hello".to_vec());
    let info = r.get(&id(b"GA"), NOW).unwrap();
    let expected: [u8; 32] = sha2::Sha256::digest(b"hello").into();
    assert_eq!(info.metadata_hash, expected);
    assert_ne!(info.metadata_hash[..5], b"hello"[..]);
}

#[test]
fn unbonded_bond_is_returned_in_full() {
    let mut r = registry();
    register(&mut r, b"GA", 37_0000000, NOW);
    r.deregister(&id(b"GA"), NOW).unwrap();
    let rc = r.withdraw(&id(b"GA"), NOW + WEEK).unwrap();
    assert_eq!(outs(&rc.transfers), vec![(b"GA".to_vec(), 37_0000000)]);
    assert_eq!(r.get(&id(b"GA"), NOW + WEEK).err(), Some(RegistryError::NotRegistered));
    assert_eq!(r.total_bonds(), 0);
}

#[test]
fn second_claim_pays_nothing() {
    let mut r = registry();
    register(&mut r, b"GA", 100_0000000, NOW);
    r.notify_reward_amount(100_0000000, 1000, NOW).unwrap();
    let (first, rc) = r.claim_rewards(&id(b"GA"), NOW + 300).unwrap();
    assert_eq!(first, 30_0000000);
    assert_eq!(outs(&rc.transfers), vec![(b"GA".to_vec(), 30_0000000)]);
    let (second, rc) = r.claim_rewards(&id(b"GA"), NOW + 300).unwrap();
    assert_eq!(second, 0);
    assert!(rc.transfers.is_empty());
    assert!(rc.event.is_none());
}

#[test]
fn slash_shares_are_at_most_half() {
    let mut r = registry();
    r.set_treasury(id(b"GTREASURY"));
    register(&mut r, b"GA", 100_0000000, NOW);
    let rc = r.slash(&id(b"GADMIN"), &id(b"GA"), 33_3333333, &id(b"GREPORTER"), NOW).unwrap();
    assert_eq!(rc.event.amount, 33_3333333);
    let paid = outs(&rc.transfers);
    assert_eq!(paid, vec![(b"GREPORTER".to_vec(), 9_9999999), (b"GTREASURY".to_vec(), 6_6666666)]);
    assert!(2 * (9_9999999 + 6_6666666) <= 33_3333333);
    assert_eq!(r.total_bonds(), 66_6666667);
}

#[test]
fn reputation_recovers_linearly_and_caps() {
    let mut r = registry();
    register(&mut r, b"GA", 100_0000000, NOW);
    r.slash(&id(b"GADMIN"), &id(b"GA"), 1, &id(b"GR"), NOW).unwrap();
    let info = r.get(&id(b"GA"), NOW).unwrap();
    assert_eq!(info.reputation, 9000);
    assert_eq!(info.last_slash_time, NOW);
    assert_eq!(effective_reputation(&info, NOW + DAY - 1), 9000);
    assert_eq!(effective_reputation(&info, NOW + DAY), 9050);
    assert_eq!(effective_reputation(&info, NOW + 7 * DAY), 9350);
    assert_eq!(effective_reputation(&info, NOW + 20 * DAY), 10000);
    assert_eq!(effective_reputation(&info, NOW + 2000 * DAY), 10000);
    assert_eq!(effective_reputation(&info, u64::MAX), 10000);
    assert_eq!(effective_reputation(&info, NOW - 1), 9000);
}

#[test]
fn slash_during_unbonding_caps_pending() {
    let mut r = registry();
    register(&mut r, b"GA", 100_0000000, NOW);
    r.deregister(&id(b"GA"), NOW).unwrap();
    r.slash(&id(b"GADMIN"), &id(b"GA"), 70_0000000, &id(b"GR"), NOW).unwrap();
    let info = r.get(&id(b"GA"), NOW).unwrap();
    assert_eq!(info.status, ServiceStatus::Unbonding);
    assert_eq!(info.bond, 30_0000000);
    assert_eq!(info.pending_unstake, 30_0000000);
}

#[test]
fn min_bond_applies_to_later_registrations() {
    let mut r = registry();
    r.set_min_bond(50_0000000);
    assert_eq!(r.min_bond(), 50_0000000);
    let env = soroban_sdk::Env::default();
    assert_eq!(r.register(&env, &id(b"GA"), vec![], 49_0000000, NOW).err(), Some(RegistryError::InsufficientBond));
    register(&mut r, b"GA", 50_0000000, NOW);
}

#[test]
fn range_checks_accept_ordinary_calls() {
    let mut r = registry();
    assert!(r.register_in_range(&id(b"GA"), 100_0000000, NOW));
    assert!(r.register_in_range(&id(b"GA"), i128::MAX, NOW));
    register(&mut r, b"GA", 100_0000000, NOW);
    assert!(!r.register_in_range(&id(b"GB"), i128::MAX, NOW));
    assert!(!r.stake_in_range(&id(b"GA"), i128::MAX, NOW));
    assert!(r.stake_in_range(&id(b"GA"), 1, NOW));
    assert!(r.deregister_in_range(&id(b"GA"), NOW));
    assert!(r.claim_in_range(&id(b"GA"), NOW));
    assert!(r.withdraw_in_range(&id(b"GA"), NOW));
    assert!(r.unstake_in_range(&id(b"GA"), 1, NOW));
    assert!(r.slash_in_range(&id(b"GADMIN"), &id(b"GA"), 1, NOW));
    assert!(r.notify_in_range(100_0000000, 1000, NOW));
    assert!(!r.notify_in_range(i128::MAX, u64::MAX, NOW));
}

// ---------------------------------------------------------------------------
// Escalation
// ---------------------------------------------------------------------------

#[test]
fn escalation_error_codes() {
    assert_eq!(EscalationError::DisputeNotFound.code(), 1);
    assert_eq!(EscalationError::DisputeAlreadyResolved.code(), 2);
    assert_eq!(EscalationError::DefenseWindowActive.code(), 3);
    assert_eq!(EscalationError::Unauthorized.code(), 4);
    assert_eq!(EscalationError::InvalidAmount.code(), 5);
    assert_eq!(EscalationError::DefenseWindowExpired.code(), 6);
}

#[test]
fn dispute_ids_are_sequential() {
    let mut e = escalation(DAY);
    for expected in 1..=5u64 {
        assert!(e.dispute_in_range());
        let (dispute_id, rc) = e.dispute(&id(b"GCLIENT"), &id(b"GSVC"), [7u8; 32], vec![1, 2, 3], NOW).unwrap();
        assert_eq!(dispute_id, expected);
        assert_eq!(rc.event.id, expected);
        assert_eq!(rc.event.bond, 5_0000000);
        assert_eq!(outs(&rc.transfers), vec![(b"GCLIENT".to_vec(), -5_0000000)]);
    }
    let d = e.get_dispute(3).unwrap();
    assert_eq!(d.id, 3);
    assert_eq!(d.receipt_hash, [7u8; 32]);
    assert_eq!(d.encrypted_response, vec![1, 2, 3]);
    assert_eq!(d.defense_window, DAY);
    assert_eq!(e.get_dispute(6).err(), Some(EscalationError::DisputeNotFound));
    assert_eq!(e.get_dispute(0).err(), Some(EscalationError::DisputeNotFound));
}

#[test]
fn defense_window_is_clamped() {
    let mut e = escalation(u64::MAX);
    let dispute_id = file(&mut e, b"GCLIENT", b"GSVC", NOW);
    assert_eq!(e.get_dispute(dispute_id).unwrap().defense_window, MAX_DEFENSE_WINDOW_SECS);
    assert_eq!(MAX_DEFENSE_WINDOW_SECS, 2_592_000);
}

#[test]
fn resolution_is_final() {
    let key = signing_key();
    let mut e = escalation(DAY);
    let dispute_id = file(&mut e, b"GCLIENT", b"GSVC", NOW);
    let sig = sign(&key, dispute_id, Verdict::ServiceWins);
    assert!(e.submit_verdict(dispute_id, Verdict::ServiceWins, &sig, 100_0000000, NOW + 1).unwrap().is_some());
    assert_eq!(e.get_dispute(dispute_id).unwrap().status, DisputeStatus::Resolved);
    let again = e.submit_verdict(dispute_id, Verdict::ServiceWins, &sig, 100_0000000, NOW + 2);
    assert_eq!(again.err(), Some(EscalationError::DisputeAlreadyResolved));
    assert_eq!(e.resolve(dispute_id, 100_0000000, NOW + DAY).err(), Some(EscalationError::DisputeAlreadyResolved));

    let second = file(&mut e, b"GCLIENT", b"GSVC", NOW);
    e.resolve(second, 100_0000000, NOW + DAY).unwrap();
    let sig = sign(&key, second, Verdict::ClientWins);
    let late = e.submit_verdict(second, Verdict::ClientWins, &sig, 100_0000000, NOW + DAY);
    assert_eq!(late.err(), Some(EscalationError::DisputeAlreadyResolved));
    assert_eq!(e.resolve(second, 100_0000000, NOW + DAY).err(), Some(EscalationError::DisputeAlreadyResolved));
}

#[test]
fn open_dispute_is_always_settleable() {
    let key = signing_key();
    let end = NOW + DAY;
    // Before the end: verdicts only.
    let mut e = escalation(DAY);
    let d = file(&mut e, b"GCLIENT", b"GSVC", NOW);
    assert_eq!(e.resolve(d, 100_0000000, end - 1).err(), Some(EscalationError::DefenseWindowActive));
    let sig = sign(&key, d, Verdict::ClientWins);
    assert!(e.submit_verdict(d, Verdict::ClientWins, &sig, 100_0000000, end - 1).unwrap().is_some());
    // At the end: both.
    let mut e = escalation(DAY);
    let d = file(&mut e, b"GCLIENT", b"GSVC", NOW);
    let sig = sign(&key, d, Verdict::ClientWins);
    assert!(e.submit_verdict(d, Verdict::ClientWins, &sig, 100_0000000, end).unwrap().is_some());
    let mut e = escalation(DAY);
    let d = file(&mut e, b"GCLIENT", b"GSVC", NOW);
    assert!(e.resolve(d, 100_0000000, end).is_ok());
    // After the end: default resolution only.
    let mut e = escalation(DAY);
    let d = file(&mut e, b"GCLIENT", b"GSVC", NOW);
    let sig = sign(&key, d, Verdict::ClientWins);
    let late = e.submit_verdict(d, Verdict::ClientWins, &sig, 100_0000000, end + 1);
    assert_eq!(late.err(), Some(EscalationError::DefenseWindowExpired));
    assert!(e.resolve(d, 100_0000000, end + 1).is_ok());
}

#[test]
fn invalid_signature_changes_nothing() {
    let mut e = escalation(DAY);
    let d = file(&mut e, b"GCLIENT", b"GSVC", NOW);
    let wrong = SigningKey::from_bytes(&[99u8; 32]);
    let sig = sign(&wrong, d, Verdict::ClientWins);
    assert!(e.submit_verdict(d, Verdict::ClientWins, &sig, 100_0000000, NOW).unwrap().is_none());
    let swapped = sign(&signing_key(), d, Verdict::ServiceWins);
    assert!(e.submit_verdict(d, Verdict::ClientWins, &swapped, 100_0000000, NOW).unwrap().is_none());
    let other_dispute = sign(&signing_key(), d + 1, Verdict::ClientWins);
    assert!(e.submit_verdict(d, Verdict::ClientWins, &other_dispute, 100_0000000, NOW).unwrap().is_none());
    assert_eq!(e.get_dispute(d).unwrap().status, DisputeStatus::Open);
    assert_eq!(e.offense_count(&id(b"GSVC")), 0);
    // Under another evaluator key the signature verifies nothing.
    let mut bad_key = escalation(DAY);
    bad_key.set_evaluator_pub_key([0xffu8; 32]);
    let d = file(&mut bad_key, b"GCLIENT", b"GSVC", NOW);
    let sig = sign(&signing_key(), d, Verdict::ClientWins);
    assert!(bad_key.submit_verdict(d, Verdict::ClientWins, &sig, 100_0000000, NOW).unwrap().is_none());
}

#[test]
fn apply_verdict_follows_the_signature_check() {
    let mut e = escalation(DAY);
    let d = file(&mut e, b"GCLIENT", b"GSVC", NOW);
    assert!(e.apply_verdict(d, Verdict::ClientWins, false, 100_0000000, NOW).unwrap().is_none());
    assert_eq!(e.get_dispute(d).unwrap().status, DisputeStatus::Open);
    let res = e.apply_verdict(d, Verdict::ClientWins, true, 100_0000000, NOW).unwrap().unwrap();
    assert_eq!(res.event.id, d);
    assert_eq!(res.event.verdict, Verdict::ClientWins);
    assert_eq!(res.event.slash_amount, 10_0000000);
    assert_eq!(e.apply_verdict(99, Verdict::ClientWins, true, 1, NOW).err(), Some(EscalationError::DisputeNotFound));
}

#[test]
fn evaluator_key_can_be_replaced() {
    let new_key = SigningKey::from_bytes(&[7u8; 32]);
    let mut e = escalation(DAY);
    let ev = e.set_evaluator_pub_key(new_key.verifying_key().to_bytes());
    assert_eq!(ev.pub_key, new_key.verifying_key().to_bytes());
    let d = file(&mut e, b"GCLIENT", b"GSVC", NOW);
    let old_sig = sign(&signing_key(), d, Verdict::ServiceWins);
    assert!(e.submit_verdict(d, Verdict::ServiceWins, &old_sig, 0, NOW).unwrap().is_none());
    let new_sig = sign(&new_key, d, Verdict::ServiceWins);
    assert!(e.submit_verdict(d, Verdict::ServiceWins, &new_sig, 0, NOW).unwrap().is_some());
}

#[test]
fn dispute_bond_applies_to_later_disputes() {
    let mut e = escalation(DAY);
    let first = file(&mut e, b"GCLIENT", b"GSVC", NOW);
    e.set_dispute_bond(7_0000000);
    assert_eq!(e.dispute_bond_amount(), 7_0000000);
    let second = file(&mut e, b"GCLIENT", b"GSVC", NOW);
    assert_eq!(e.get_dispute(first).unwrap().dispute_bond, 5_0000000);
    assert_eq!(e.get_dispute(second).unwrap().dispute_bond, 7_0000000);
}

#[test]
fn loser_pays() {
    let key = signing_key();
    let mut e = escalation(DAY);
    let d = file(&mut e, b"GCLIENT", b"GSVC", NOW);
    let res = e.submit_verdict(d, Verdict::ServiceWins, &sign(&key, d, Verdict::ServiceWins), 100_0000000, NOW).unwrap().unwrap();
    assert!(res.slash.is_none());
    assert_eq!(res.event.slash_amount, 0);
    assert_eq!(outs(&res.transfers), vec![(b"GSVC".to_vec(), 5_0000000)]);

    let d = file(&mut e, b"GCLIENT", b"GSVC", NOW);
    let res = e.submit_verdict(d, Verdict::ClientWins, &sign(&key, d, Verdict::ClientWins), 100_0000000, NOW).unwrap().unwrap();
    let req = res.slash.unwrap();
    assert_eq!(req.service.key, b"GSVC".to_vec());
    assert_eq!(req.reporter.key, b"GCLIENT".to_vec());
    assert_eq!(req.amount, 10_0000000);
    assert_eq!(outs(&res.transfers), vec![(b"GCLIENT".to_vec(), 5_0000000)]);
}

#[test]
fn offense_counted_only_on_a_slash() {
    let key = signing_key();
    let mut e = escalation(DAY);
    // A service with no bond left is not slashed: no offense, and the
    // client's dispute bond stays with the contract.
    let d = file(&mut e, b"GCLIENT", b"GSVC", NOW);
    let res = e.submit_verdict(d, Verdict::ClientWins, &sign(&key, d, Verdict::ClientWins), 0, NOW).unwrap().unwrap();
    assert!(res.slash.is_none());
    assert_eq!(res.event.slash_amount, 0);
    assert!(res.transfers.is_empty());
    assert_eq!(e.offense_count(&id(b"GSVC")), 0);
    // 9 units at 10% round down to nothing.
    let d = file(&mut e, b"GCLIENT", b"GSVC", NOW);
    let res = e.resolve(d, 9, NOW + DAY).unwrap();
    assert!(res.slash.is_none());
    assert_eq!(e.offense_count(&id(b"GSVC")), 0);
    // A real slash counts once, for that service alone.
    let d = file(&mut e, b"GCLIENT", b"GSVC", NOW);
    let res = e.resolve(d, 10, NOW + DAY).unwrap();
    assert_eq!(res.event.slash_amount, 1);
    assert_eq!(e.offense_count(&id(b"GSVC")), 1);
    assert_eq!(e.offense_count(&id(b"GOTHER")), 0);
}

#[test]
fn progressive_slash_on_consecutive_losses() {
    let mut e = escalation(DAY);
    let mut bond: i128 = 200_0000000;
    let expected = [20_0000000i128, 27_0000000, 30_6000000, 30_6000000];
    for (k, want) in expected.iter().enumerate() {
        let d = file(&mut e, b"GCLIENT", b"GSVC", NOW);
        let res = e.resolve(d, bond, NOW + DAY).unwrap();
        assert_eq!(res.event.slash_amount, *want);
        assert_eq!(res.slash.as_ref().unwrap().amount, *want);
        bond -= want;
        assert_eq!(e.offense_count(&id(b"GSVC")), k as u32 + 1);
    }
}

#[test]
fn slash_never_exceeds_the_bond() {
    let mut e = escalation(DAY);
    for _ in 0..25 {
        let d = file(&mut e, b"GCLIENT", b"GSVC", NOW);
        let res = e.resolve(d, 100, NOW + DAY).unwrap();
        assert!(res.event.slash_amount >= 0 && res.event.slash_amount <= 100);
    }
    // After eighteen offenses the whole bond goes.
    assert_eq!(e.offense_count(&id(b"GSVC")), 25);
    let d = file(&mut e, b"GCLIENT", b"GSVC", NOW);
    assert_eq!(e.resolve(d, 100, NOW + DAY).unwrap().event.slash_amount, 100);
}

#[test]
fn escalation_range_checks() {
    let mut e = escalation(DAY);
    assert!(e.dispute_in_range());
    let d = file(&mut e, b"GCLIENT", b"GSVC", NOW);
    assert!(e.verdict_in_range(d, Verdict::ClientWins, 100_0000000, NOW));
    assert!(!e.verdict_in_range(d, Verdict::ClientWins, i128::MAX, NOW));
    assert!(e.verdict_in_range(d, Verdict::ServiceWins, i128::MAX, NOW));
    assert!(e.resolve_in_range(d, 100_0000000, NOW + DAY));
    assert!(!e.resolve_in_range(d, i128::MAX, NOW + DAY));
    assert!(e.resolve_in_range(d, i128::MAX, NOW));
    let late = file(&mut e, b"GCLIENT", b"GSVC", u64::MAX - 10);
    assert!(!e.resolve_in_range(late, 1, u64::MAX));
    assert_eq!(e.admin().key, b"GADMIN".to_vec());
    assert_eq!(e.registry().key, b"CREGISTRY".to_vec());
    assert_eq!(e.token().key, b"CTOKEN".to_vec());
}

#[test]
fn resolution_touches_only_its_dispute() {
    let key = signing_key();
    let mut e = escalation(DAY);
    let first = file(&mut e, b"GCLIENT", b"GSVC", NOW);
    let second = file(&mut e, b"GCLIENT2", b"GSVC2", NOW + 5);
    let sig = sign(&key, first, Verdict::ClientWins);
    e.submit_verdict(first, Verdict::ClientWins, &sig, 100_0000000, NOW + 10).unwrap().unwrap();
    let other = e.get_dispute(second).unwrap();
    assert_eq!(other.status, DisputeStatus::Open);
    assert_eq!(other.client.key, b"GCLIENT2".to_vec());
    assert_eq!(other.filed_at, NOW + 5);
    assert_eq!(e.offense_count(&id(b"GSVC2")), 0);
    let (third, _) = e.dispute(&id(b"GCLIENT"), &id(b"GSVC"), [0u8; 32], vec![], NOW).unwrap();
    assert_eq!(third, 3);
}

#[test]
fn rewards_paid_never_exceed_rewards_funded() {
    let mut r = registry();
    register(&mut r, b"GA", 10_0000001, NOW);
    register(&mut r, b"GB", 33_3333333, NOW);
    register(&mut r, b"GC", 17_7777777, NOW);
    r.notify_reward_amount(100_0000007, 997, NOW).unwrap();
    let mut paid: i128 = 0;
    let (c, _) = r.claim_rewards(&id(b"GA"), NOW + 101).unwrap();
    paid += c;
    let rc = r.slash(&id(b"GADMIN"), &id(b"GB"), 33_3333333, &id(b"GR"), NOW + 333).unwrap();
    // The slash takes the whole bond, closing GB's record and paying its
    // unclaimed rewards.
    let to_gb: i128 = outs(&rc.transfers).iter().filter(|(k, _)| k.as_slice() == b"GB").map(|(_, a)| *a).sum();
    assert!(to_gb > 0);
    paid += to_gb;
    let rc = r.stake(&id(b"GC"), 3, NOW + 500).unwrap();
    assert_eq!(rc.event.amount, 3);
    r.notify_reward_amount(50_0000000, 7, NOW + 600).unwrap();
    for who in [&b"GA"[..], &b"GC"[..]] {
        let (c, _) = r.claim_rewards(&id(who), NOW + 5000).unwrap();
        paid += c;
    }
    let funded: i128 = 100_0000007 + 50_0000000;
    assert!(paid > 0);
    assert!(paid <= funded);
}
