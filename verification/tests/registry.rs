use lightsurge::account::AccountId;
use lightsurge::registry::contract::Registry;
use lightsurge::registry::types::{ServiceInfo, ServiceStatus};
use lightsurge::token::TokenMove;
use sha2::Digest;

// ---------------------------------------------------------------------------
// Test harness: the registry with a bond token ledger around it.
// ---------------------------------------------------------------------------

const REGISTRY: &[u8] = b"CREGISTRY";

struct TokenLedger {
    balances: Vec<(Vec<u8>, i128)>,
}

impl TokenLedger {
    fn balance(&self, who: &AccountId) -> i128 {
        self.balance_of(&who.key)
    }

    fn balance_of(&self, key: &[u8]) -> i128 {
        self.balances.iter().find(|(k, _)| k.as_slice() == key).map(|(_, b)| *b).unwrap_or(0)
    }

    fn credit(&mut self, key: &[u8], amount: i128) {
        match self.balances.iter_mut().find(|(k, _)| k.as_slice() == key) {
            Some((_, b)) => *b += amount,
            None => self.balances.push((key.to_vec(), amount)),
        }
    }

    fn debit(&mut self, key: &[u8], amount: i128) {
        let have = self.balance_of(key);
        assert!(have >= amount, "balance is not sufficient to spend");
        self.credit(key, -amount);
    }

    fn apply(&mut self, contract: &[u8], moves: &[TokenMove]) {
        for m in moves {
            match m {
                TokenMove::In { from, amount } => {
                    self.debit(&from.key, *amount);
                    self.credit(contract, *amount);
                },
                TokenMove::Out { to, amount } => {
                    self.debit(contract, *amount);
                    self.credit(&to.key, *amount);
                },
            }
        }
    }
}

struct Setup {
    env: soroban_sdk::Env,
    admin: AccountId,
    token: AccountId,
    registry: Registry,
    ledger: TokenLedger,
    now: u64,
    next_address: u32,
}

impl Setup {
    fn new() -> Self {
        let admin = AccountId::new(b"GADMIN".to_vec());
        let token = AccountId::new(b"CTOKEN".to_vec());
        let min_bond: i128 = 10_0000000; // 10 tokens
        let cooldown: u64 = 604_800; // 7 days
        let registry = Registry::new(AccountId::new(admin.key.clone()), AccountId::new(token.key.clone()), min_bond, cooldown);
        let mut ledger = TokenLedger { balances: Vec::new() };
        // Fund admin for reward seeding
        ledger.credit(&admin.key, 10_000_0000000);
        Setup { env: soroban_sdk::Env::default(), admin, token, registry, ledger, now: 1_000_000, next_address: 0 }
    }

    fn address(&mut self) -> AccountId {
        self.next_address += 1;
        AccountId::new(format!("GADDRESS{:04}", self.next_address).into_bytes())
    }

    /// Create a funded service address.
    fn service(&mut self) -> AccountId {
        let addr = self.address();
        self.ledger.credit(&addr.key, 1_000_0000000); // 1 000 tokens
        addr
    }

    fn advance(&mut self, seconds: u64) {
        self.now += seconds;
    }

    fn meta1(&self) -> Vec<u8> {
        b"service-metadata-1".to_vec()
    }

    fn meta2(&self) -> Vec<u8> {
        b"service-metadata-2".to_vec()
    }

    fn balance(&self, who: &AccountId) -> i128 {
        self.ledger.balance(who)
    }

    // Calls as a contract client makes them: a refused call panics.

    fn register(&mut self, svc: &AccountId, meta: Vec<u8>, bond: i128) {
        assert!(self.registry.register_in_range(svc, bond, self.now), "arithmetic overflow");
        let rc = self.registry.register(&self.env, svc, meta, bond, self.now).unwrap();
        self.ledger.apply(REGISTRY, &rc.transfers);
    }

    fn get(&self, svc: &AccountId) -> ServiceInfo {
        self.registry.get(svc, self.now).unwrap()
    }

    fn deregister(&mut self, svc: &AccountId) {
        assert!(self.registry.deregister_in_range(svc, self.now), "arithmetic overflow");
        let rc = self.registry.deregister(svc, self.now).unwrap();
        self.ledger.apply(REGISTRY, &rc.transfers);
    }

    fn update_metadata(&mut self, svc: &AccountId, meta: Vec<u8>) {
        let rc = self.registry.update_metadata(&self.env, svc, meta).unwrap();
        self.ledger.apply(REGISTRY, &rc.transfers);
    }

    fn stake(&mut self, svc: &AccountId, amount: i128) {
        assert!(self.registry.stake_in_range(svc, amount, self.now), "arithmetic overflow");
        let rc = self.registry.stake(svc, amount, self.now).unwrap();
        self.ledger.apply(REGISTRY, &rc.transfers);
    }

    fn unstake(&mut self, svc: &AccountId, amount: i128) {
        assert!(self.registry.unstake_in_range(svc, amount, self.now), "arithmetic overflow");
        let rc = self.registry.unstake(svc, amount, self.now).unwrap();
        self.ledger.apply(REGISTRY, &rc.transfers);
    }

    fn withdraw(&mut self, svc: &AccountId) {
        assert!(self.registry.withdraw_in_range(svc, self.now), "arithmetic overflow");
        let rc = self.registry.withdraw(svc, self.now).unwrap();
        self.ledger.apply(REGISTRY, &rc.transfers);
    }

    fn slash(&mut self, caller: &AccountId, svc: &AccountId, amount: i128, reporter: &AccountId) {
        assert!(self.registry.slash_in_range(caller, svc, amount, self.now), "arithmetic overflow");
        let rc = self.registry.slash(caller, svc, amount, reporter, self.now).unwrap();
        self.ledger.apply(REGISTRY, &rc.transfers);
    }

    fn claim_rewards(&mut self, svc: &AccountId) -> i128 {
        assert!(self.registry.claim_in_range(svc, self.now), "arithmetic overflow");
        let (amount, rc) = self.registry.claim_rewards(svc, self.now).unwrap();
        self.ledger.apply(REGISTRY, &rc.transfers);
        amount
    }

    fn notify_reward_amount(&mut self, amount: i128, duration: u64) {
        assert!(self.registry.notify_in_range(amount, duration, self.now), "arithmetic overflow");
        let rc = self.registry.notify_reward_amount(amount, duration, self.now).unwrap();
        self.ledger.apply(REGISTRY, &rc.transfers);
    }
}

fn copy(a: &AccountId) -> AccountId {
    AccountId::new(a.key.clone())
}

// ---------------------------------------------------------------------------
// Registration
// ---------------------------------------------------------------------------

#[test]
fn test_register() {
    let mut t = Setup::new();
    let svc = t.service();

    t.register(&svc, t.meta1(), 50_0000000);

    let info = t.get(&svc);
    assert_eq!(info.bond, 50_0000000);
    assert_eq!(info.reputation, 10000); // default 100% (optimistic)
    assert_eq!(info.status, ServiceStatus::Active);
    assert_eq!(info.pending_unstake, 0);
    assert_eq!(info.registered_at, 1_000_000);
    // Token balances
    assert_eq!(t.balance(&svc), 950_0000000); // 1000 - 50
    assert_eq!(t.registry.total_bonds(), 50_0000000);
}

#[test]
#[should_panic]
fn test_register_insufficient_bond() {
    let mut t = Setup::new();
    let svc = t.service();
    t.register(&svc, t.meta1(), 5_0000000); // 5 < 10 min
}

#[test]
#[should_panic]
fn test_register_already_registered() {
    let mut t = Setup::new();
    let svc = t.service();
    t.register(&svc, t.meta1(), 50_0000000);
    t.register(&svc, t.meta1(), 50_0000000);
}

#[test]
#[should_panic]
fn test_register_invalid_amount() {
    let mut t = Setup::new();
    let svc = t.service();
    t.register(&svc, t.meta1(), 0);
}

// ---------------------------------------------------------------------------
// Get
// ---------------------------------------------------------------------------

#[test]
#[should_panic]
fn test_get_not_registered() {
    let mut t = Setup::new();
    let svc = t.address();
    t.get(&svc);
}

// ---------------------------------------------------------------------------
// Deregister
// ---------------------------------------------------------------------------

#[test]
fn test_deregister() {
    let mut t = Setup::new();
    let svc = t.service();
    t.register(&svc, t.meta1(), 50_0000000);

    t.deregister(&svc);

    let info = t.get(&svc);
    assert_eq!(info.status, ServiceStatus::Unbonding);
    assert_eq!(info.pending_unstake, 50_0000000);
    assert_eq!(info.unstake_time, 1_000_000);
}

#[test]
#[should_panic]
fn test_deregister_not_registered() {
    let mut t = Setup::new();
    let svc = t.address();
    t.deregister(&svc);
}

#[test]
#[should_panic]
fn test_deregister_not_active() {
    let mut t = Setup::new();
    let svc = t.service();
    t.register(&svc, t.meta1(), 50_0000000);
    t.deregister(&svc);
    t.deregister(&svc); // already unbonding
}

// ---------------------------------------------------------------------------
// Update metadata
// ---------------------------------------------------------------------------

#[test]
fn test_update_metadata() {
    let mut t = Setup::new();
    let svc = t.service();
    t.register(&svc, t.meta1(), 50_0000000);

    t.update_metadata(&svc, t.meta2());

    let info = t.get(&svc);
    let expected: [u8; 32] = sha2::Sha256::digest(t.meta2()).into();
    assert_eq!(info.metadata_hash, expected);
}

// ---------------------------------------------------------------------------
// Stake
// ---------------------------------------------------------------------------

#[test]
fn test_stake() {
    let mut t = Setup::new();
    let svc = t.service();
    t.register(&svc, t.meta1(), 50_0000000);

    t.stake(&svc, 30_0000000);

    let info = t.get(&svc);
    assert_eq!(info.bond, 80_0000000);
    assert_eq!(t.balance(&svc), 920_0000000); // 1000 - 50 - 30
    assert_eq!(t.registry.total_bonds(), 80_0000000);
}

#[test]
#[should_panic]
fn test_stake_invalid_amount() {
    let mut t = Setup::new();
    let svc = t.service();
    t.register(&svc, t.meta1(), 50_0000000);
    t.stake(&svc, 0);
}

#[test]
#[should_panic]
fn test_stake_not_active() {
    let mut t = Setup::new();
    let svc = t.service();
    t.register(&svc, t.meta1(), 50_0000000);
    t.deregister(&svc);
    t.stake(&svc, 10_0000000);
}

// ---------------------------------------------------------------------------
// Unstake
// ---------------------------------------------------------------------------

#[test]
fn test_unstake() {
    let mut t = Setup::new();
    let svc = t.service();
    t.register(&svc, t.meta1(), 50_0000000);

    t.unstake(&svc, 20_0000000);

    let info = t.get(&svc);
    assert_eq!(info.pending_unstake, 20_0000000);
    assert_eq!(info.unstake_time, 1_000_000);
    // Bond unchanged during cooldown
    assert_eq!(info.bond, 50_0000000);
}

#[test]
#[should_panic]
fn test_unstake_below_minimum() {
    let mut t = Setup::new();
    let svc = t.service();
    t.register(&svc, t.meta1(), 50_0000000);
    // Unstaking 45 leaves 5 < 10 min_bond
    t.unstake(&svc, 45_0000000);
}

#[test]
#[should_panic]
fn test_unstake_pending_exists() {
    let mut t = Setup::new();
    let svc = t.service();
    t.register(&svc, t.meta1(), 50_0000000);
    t.unstake(&svc, 10_0000000);
    t.unstake(&svc, 10_0000000); // already pending
}

// ---------------------------------------------------------------------------
// Withdraw
// ---------------------------------------------------------------------------

#[test]
fn test_withdraw_after_cooldown() {
    let mut t = Setup::new();
    let svc = t.service();
    t.register(&svc, t.meta1(), 50_0000000);

    t.unstake(&svc, 20_0000000);
    t.advance(604_800); // 7 days

    t.withdraw(&svc);

    let info = t.get(&svc);
    assert_eq!(info.bond, 30_0000000); // 50 - 20
    assert_eq!(info.pending_unstake, 0);
    assert_eq!(t.balance(&svc), 970_0000000); // 1000 - 50 + 20
    assert_eq!(t.registry.total_bonds(), 30_0000000);
}

#[test]
#[should_panic]
fn test_withdraw_before_cooldown() {
    let mut t = Setup::new();
    let svc = t.service();
    t.register(&svc, t.meta1(), 50_0000000);
    t.unstake(&svc, 20_0000000);
    t.advance(604_799); // 1 second short
    t.withdraw(&svc);
}

#[test]
#[should_panic]
fn test_withdraw_no_pending() {
    let mut t = Setup::new();
    let svc = t.service();
    t.register(&svc, t.meta1(), 50_0000000);
    t.withdraw(&svc); // nothing pending
}

// ---------------------------------------------------------------------------
// Deregister + withdraw full lifecycle
// ---------------------------------------------------------------------------

#[test]
fn test_deregister_and_withdraw() {
    let mut t = Setup::new();
    let svc = t.service();
    t.register(&svc, t.meta1(), 50_0000000);

    t.deregister(&svc);
    t.advance(604_800);
    t.withdraw(&svc);

    // All tokens returned
    assert_eq!(t.balance(&svc), 1_000_0000000);
    assert_eq!(t.registry.total_bonds(), 0);
}

#[test]
#[should_panic]
fn test_get_after_full_withdraw() {
    let mut t = Setup::new();
    let svc = t.service();
    t.register(&svc, t.meta1(), 50_0000000);
    t.deregister(&svc);
    t.advance(604_800);
    t.withdraw(&svc);
    // Service removed
    t.get(&svc);
}

// ---------------------------------------------------------------------------
// Slash
// ---------------------------------------------------------------------------

#[test]
fn test_slash_by_admin() {
    let mut t = Setup::new();
    let svc = t.service();
    let reporter = t.address();
    t.register(&svc, t.meta1(), 100_0000000);

    let admin = copy(&t.admin);
    t.slash(&admin, &svc, 20_0000000, &reporter);

    let info = t.get(&svc);
    assert_eq!(info.bond, 80_0000000); // 100 - 20
    assert_eq!(t.registry.total_bonds(), 80_0000000);
    // Reporter gets 30% = 6
    assert_eq!(t.balance(&reporter), 6_0000000);
}

#[test]
fn test_slash_with_treasury() {
    let mut t = Setup::new();
    let svc = t.service();
    let reporter = t.address();
    let treasury = t.address();

    t.registry.set_treasury(copy(&treasury));
    t.register(&svc, t.meta1(), 100_0000000);

    let admin = copy(&t.admin);
    t.slash(&admin, &svc, 100_0000000, &reporter);

    // 30% reporter = 30, 20% treasury = 20, 50% pool stays in contract
    assert_eq!(t.balance(&reporter), 30_0000000);
    assert_eq!(t.balance(&treasury), 20_0000000);
}

#[test]
#[should_panic]
fn test_slash_unauthorized() {
    let mut t = Setup::new();
    let svc = t.service();
    let attacker = t.address();
    let reporter = t.address();
    t.register(&svc, t.meta1(), 50_0000000);
    t.slash(&attacker, &svc, 10_0000000, &reporter);
}

#[test]
fn test_slash_by_dispute_resolver() {
    let mut t = Setup::new();
    let resolver = t.address();
    t.registry.set_dispute_resolver(copy(&resolver));

    let svc = t.service();
    let reporter = t.address();
    t.register(&svc, t.meta1(), 50_0000000);

    t.slash(&resolver, &svc, 10_0000000, &reporter);

    let info = t.get(&svc);
    assert_eq!(info.bond, 40_0000000);
}

#[test]
fn test_slash_depletes_bond() {
    let mut t = Setup::new();
    let svc = t.service();
    let reporter = t.address();
    t.register(&svc, t.meta1(), 50_0000000);

    let admin = copy(&t.admin);
    t.slash(&admin, &svc, 50_0000000, &reporter);

    assert_eq!(t.registry.total_bonds(), 0);
}

#[test]
#[should_panic]
fn test_slash_depleted_removes_service() {
    let mut t = Setup::new();
    let svc = t.service();
    let reporter = t.address();
    t.register(&svc, t.meta1(), 50_0000000);
    let admin = copy(&t.admin);
    t.slash(&admin, &svc, 50_0000000, &reporter);
    // Service removed
    t.get(&svc);
}

#[test]
fn test_slash_caps_to_bond() {
    let mut t = Setup::new();
    let svc = t.service();
    let reporter = t.address();
    t.register(&svc, t.meta1(), 50_0000000);

    // Slash more than bond — capped to 50
    let admin = copy(&t.admin);
    t.slash(&admin, &svc, 999_0000000, &reporter);

    // Reporter gets 30% of 50 = 15
    assert_eq!(t.balance(&reporter), 15_0000000);
    assert_eq!(t.registry.total_bonds(), 0);
}

#[test]
fn test_slash_during_unbonding() {
    let mut t = Setup::new();
    let svc = t.service();
    let reporter = t.address();
    t.register(&svc, t.meta1(), 100_0000000);

    t.deregister(&svc);
    // Bond still slashable during cooldown
    let admin = copy(&t.admin);
    t.slash(&admin, &svc, 40_0000000, &reporter);

    let info = t.get(&svc);
    assert_eq!(info.bond, 60_0000000);
    // pending_unstake capped to remaining bond
    assert_eq!(info.pending_unstake, 60_0000000);
}

// ---------------------------------------------------------------------------
// Rewards (reward per token)
// ---------------------------------------------------------------------------

#[test]
fn test_notify_and_claim() {
    let mut t = Setup::new();
    let svc = t.service();
    t.register(&svc, t.meta1(), 100_0000000);

    // 100 tokens over 1000 seconds
    t.notify_reward_amount(100_0000000, 1000);

    t.advance(1000);

    let claimed = t.claim_rewards(&svc);
    assert_eq!(claimed, 100_0000000); // sole staker gets all
}

#[test]
fn test_rewards_partial_duration() {
    let mut t = Setup::new();
    let svc = t.service();
    t.register(&svc, t.meta1(), 100_0000000);

    t.notify_reward_amount(100_0000000, 1000);

    t.advance(500); // half

    let claimed = t.claim_rewards(&svc);
    assert_eq!(claimed, 50_0000000);
}

#[test]
fn test_rewards_two_equal_stakers() {
    let mut t = Setup::new();
    let svc1 = t.service();
    let svc2 = t.service();

    t.register(&svc1, t.meta1(), 100_0000000);
    t.register(&svc2, t.meta2(), 100_0000000);

    t.notify_reward_amount(100_0000000, 1000);

    t.advance(1000);

    let c1 = t.claim_rewards(&svc1);
    let c2 = t.claim_rewards(&svc2);
    assert_eq!(c1, 50_0000000);
    assert_eq!(c2, 50_0000000);
}

#[test]
fn test_rewards_proportional_to_bond() {
    let mut t = Setup::new();
    let svc1 = t.service();
    let svc2 = t.service();

    // 75:25 ratio
    t.register(&svc1, t.meta1(), 75_0000000);
    t.register(&svc2, t.meta2(), 25_0000000);

    t.notify_reward_amount(100_0000000, 1000);

    t.advance(1000);

    let c1 = t.claim_rewards(&svc1);
    let c2 = t.claim_rewards(&svc2);
    assert_eq!(c1, 75_0000000);
    assert_eq!(c2, 25_0000000);
}

#[test]
fn test_rewards_late_staker() {
    let mut t = Setup::new();
    let svc1 = t.service();
    let svc2 = t.service();

    t.register(&svc1, t.meta1(), 100_0000000);

    // 100 tokens over 1000s
    t.notify_reward_amount(100_0000000, 1000);

    // svc1 earns alone for 500s
    t.advance(500);

    // svc2 joins with equal stake at midpoint
    t.register(&svc2, t.meta2(), 100_0000000);

    // Remaining 500s split 50/50
    t.advance(500);

    let c1 = t.claim_rewards(&svc1);
    let c2 = t.claim_rewards(&svc2);

    // svc1: 50 (alone) + 25 (shared) = 75
    // svc2: 25 (shared)
    assert_eq!(c1, 75_0000000);
    assert_eq!(c2, 25_0000000);
}

#[test]
fn test_claim_no_rewards() {
    let mut t = Setup::new();
    let svc = t.service();
    t.register(&svc, t.meta1(), 50_0000000);

    let claimed = t.claim_rewards(&svc);
    assert_eq!(claimed, 0);
}

// ---------------------------------------------------------------------------
// Admin
// ---------------------------------------------------------------------------

#[test]
fn test_set_admin() {
    let mut t = Setup::new();
    let new_admin = t.address();
    t.registry.set_admin(copy(&new_admin));
    assert_eq!(t.registry.admin().key, new_admin.key);
}

#[test]
fn test_read_only_helpers() {
    let t = Setup::new();
    assert_eq!(t.registry.admin().key, t.admin.key);
    assert_eq!(t.registry.token().key, t.token.key);
    assert_eq!(t.registry.min_bond(), 10_0000000);
    assert_eq!(t.registry.total_bonds(), 0);
}

// ---------------------------------------------------------------------------
// Reputation
// ---------------------------------------------------------------------------

#[test]
fn test_reputation_decreases_on_slash() {
    let mut t = Setup::new();
    let svc = t.service();
    let reporter = t.address();
    t.register(&svc, t.meta1(), 100_0000000);

    let admin = copy(&t.admin);
    t.slash(&admin, &svc, 10_0000000, &reporter);

    let info = t.get(&svc);
    // 10000 - 1000 (SLASH_REPUTATION_PENALTY) = 9000
    assert_eq!(info.reputation, 9000);
}

#[test]
fn test_reputation_multiple_slashes() {
    let mut t = Setup::new();
    let svc = t.service();
    let reporter = t.address();
    t.register(&svc, t.meta1(), 100_0000000);

    let admin = copy(&t.admin);
    t.slash(&admin, &svc, 5_0000000, &reporter);
    t.slash(&admin, &svc, 5_0000000, &reporter);

    let info = t.get(&svc);
    // 10000 - 1000 - 1000 = 8000
    assert_eq!(info.reputation, 8000);
}

#[test]
fn test_reputation_recovers_over_time() {
    let mut t = Setup::new();
    let svc = t.service();
    let reporter = t.address();
    t.register(&svc, t.meta1(), 100_0000000);

    let admin = copy(&t.admin);
    t.slash(&admin, &svc, 10_0000000, &reporter);

    // After slash: stored reputation = 9000
    // Advance 10 days → recovery = 10 * 50 = 500 bps
    t.advance(10 * 86400);

    let info = t.get(&svc);
    // 9000 + 500 = 9500
    assert_eq!(info.reputation, 9500);
}

#[test]
fn test_reputation_caps_at_max() {
    let mut t = Setup::new();
    let svc = t.service();
    let reporter = t.address();
    t.register(&svc, t.meta1(), 100_0000000);

    let admin = copy(&t.admin);
    t.slash(&admin, &svc, 10_0000000, &reporter);

    // Advance 30 days → recovery = 30 * 50 = 1500 bps
    // 9000 + 1500 = 10500 → capped at 10000
    t.advance(30 * 86400);

    let info = t.get(&svc);
    assert_eq!(info.reputation, 10000);
}

#[test]
fn test_reputation_floors_at_zero() {
    let mut t = Setup::new();
    let svc = t.service();
    let reporter = t.address();
    // Large bond so we can slash many times
    t.register(&svc, t.meta1(), 500_0000000);

    // Slash 10 times → penalty = 10 * 1000 = 10000 → reputation = 0
    let admin = copy(&t.admin);
    for _ in 0..10 {
        t.slash(&admin, &svc, 5_0000000, &reporter);
    }

    let info = t.get(&svc);
    assert_eq!(info.reputation, 0);
}

// ---------------------------------------------------------------------------
// Accrued rewards on full slash
// ---------------------------------------------------------------------------

#[test]
fn test_accrued_rewards_paid_on_full_slash() {
    let mut t = Setup::new();
    let svc = t.service();
    let reporter = t.address();
    t.register(&svc, t.meta1(), 100_0000000);

    // Seed rewards: 100 tokens over 1000s
    t.notify_reward_amount(100_0000000, 1000);
    t.advance(500); // accrue 50 tokens

    let balance_before = t.balance(&svc);

    // Slash entire bond — accrued rewards should still be paid out
    let admin = copy(&t.admin);
    t.slash(&admin, &svc, 100_0000000, &reporter);

    let balance_after = t.balance(&svc);
    // Service should receive its accrued rewards (~50 tokens)
    assert_eq!(balance_after - balance_before, 50_0000000);
}

// ---------------------------------------------------------------------------
// Accrued rewards on full deregister + withdraw
// ---------------------------------------------------------------------------

#[test]
fn test_accrued_rewards_paid_on_full_withdraw() {
    let mut t = Setup::new();
    let svc = t.service();
    t.register(&svc, t.meta1(), 100_0000000);

    // Seed rewards: 100 tokens over 1000s
    t.notify_reward_amount(100_0000000, 1000);
    t.advance(1000); // accrue all 100 tokens

    t.deregister(&svc);
    t.advance(604_800); // cooldown

    let balance_before = t.balance(&svc);
    t.withdraw(&svc);
    let balance_after = t.balance(&svc);

    // Should get bond (100) + accrued rewards (100)
    assert_eq!(balance_after - balance_before, 200_0000000);
}

// ---------------------------------------------------------------------------
// Reward period overlap (notify during active period)
// ---------------------------------------------------------------------------

#[test]
fn test_notify_during_active_period() {
    let mut t = Setup::new();
    let svc = t.service();
    t.register(&svc, t.meta1(), 100_0000000);

    // First: 100 tokens over 1000s
    t.notify_reward_amount(100_0000000, 1000);
    t.advance(500); // half consumed: 50 distributed, 50 remaining

    // Second: 200 tokens over 1000s, leftover 50 rolls in → rate = 250/1000
    t.notify_reward_amount(200_0000000, 1000);
    t.advance(1000);

    let claimed = t.claim_rewards(&svc);
    // First 500s: 50 tokens, second 1000s: 250 tokens = 300 total
    assert_eq!(claimed, 300_0000000);
}

// ---------------------------------------------------------------------------
// Slash during active reward distribution
// ---------------------------------------------------------------------------

#[test]
fn test_slash_during_rewards() {
    let mut t = Setup::new();
    let svc1 = t.service();
    let svc2 = t.service();
    let reporter = t.address();

    t.register(&svc1, t.meta1(), 100_0000000);
    t.register(&svc2, t.meta2(), 100_0000000);

    // 100 tokens over 1000s, split 50/50
    t.notify_reward_amount(100_0000000, 1000);
    t.advance(500);

    // Slash svc1 by 50 — total bonds drops from 200 to 150
    let admin = copy(&t.admin);
    t.slash(&admin, &svc1, 50_0000000, &reporter);

    t.advance(500);

    let c1 = t.claim_rewards(&svc1);
    let c2 = t.claim_rewards(&svc2);

    // svc1: 500s at 50/200 share + 500s at 50/150 share
    // svc1: 25 + 16.666... = 41.666... ≈ 41_6666666
    // svc2: 25 + 33.333... = 58.333... ≈ 58_3333333
    // Allow for integer rounding
    assert!(c1 >= 41_0000000 && c1 <= 42_0000000);
    assert!(c2 >= 58_0000000 && c2 <= 59_0000000);
}

// ---------------------------------------------------------------------------
// Edge cases
// ---------------------------------------------------------------------------

#[test]
#[should_panic]
fn test_slash_zero_amount() {
    let mut t = Setup::new();
    let svc = t.service();
    let reporter = t.address();
    t.register(&svc, t.meta1(), 50_0000000);
    let admin = copy(&t.admin);
    t.slash(&admin, &svc, 0, &reporter);
}

#[test]
#[should_panic]
fn test_register_negative_amount() {
    let mut t = Setup::new();
    let svc = t.service();
    t.register(&svc, t.meta1(), -10_0000000);
}

#[test]
#[should_panic]
fn test_stake_not_registered() {
    let mut t = Setup::new();
    let svc = t.address();
    t.stake(&svc, 10_0000000);
}

#[test]
fn test_reputation_slash_recover_slash() {
    let mut t = Setup::new();
    let svc = t.service();
    let reporter = t.address();
    t.register(&svc, t.meta1(), 200_0000000);

    // First slash: 10000 → 9000
    let admin = copy(&t.admin);
    t.slash(&admin, &svc, 10_0000000, &reporter);
    let info = t.get(&svc);
    assert_eq!(info.reputation, 9000);

    // Recover for 10 days: 9000 + 500 = 9500
    t.advance(10 * 86400);
    let info = t.get(&svc);
    assert_eq!(info.reputation, 9500);

    // Second slash: 9500 → 8500
    t.slash(&admin, &svc, 10_0000000, &reporter);
    let info = t.get(&svc);
    assert_eq!(info.reputation, 8500);
}

#[test]
fn test_withdraw_after_partial_slash_during_unbonding() {
    let mut t = Setup::new();
    let svc = t.service();
    let reporter = t.address();
    t.register(&svc, t.meta1(), 100_0000000);

    t.deregister(&svc);
    // Slash 40 during cooldown — pending_unstake capped to 60
    let admin = copy(&t.admin);
    t.slash(&admin, &svc, 40_0000000, &reporter);

    let info = t.get(&svc);
    assert_eq!(info.bond, 60_0000000);
    assert_eq!(info.pending_unstake, 60_0000000);

    t.advance(604_800);
    t.withdraw(&svc);

    // Bond fully withdrawn
    assert_eq!(t.registry.total_bonds(), 0);
}
