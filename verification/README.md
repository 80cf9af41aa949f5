# lightsurge

A bonded marketplace for AI services, as a library verified with Verus.

- `src/registry/`: services lock a bond to be listed, unbond it after a
  cooldown, are slashed by the admin or the dispute resolver (30% of a slash
  to the reporter, 20% to the treasury), and share a reward pool in
  proportion to their bonds. Reputation drops with each slash and recovers
  with time.
- `src/escalation/`: clients file disputes with a bond; the evaluator
  resolves them with an Ed25519-signed verdict, and a dispute left unjudged
  past its defense window resolves against the service. Losing services are
  slashed progressively (10% for a first offense, 5% more for each earlier
  one, at most 100%).
- `src/account.rs`, `src/token.rs`, `src/crypto.rs`: addresses, the token
  movements a call asks for, and the hash and signature checks, which are
  done by `soroban-sdk` and `ed25519-dalek`.

Each contract is a state with a mathematical view (`model.rs`); every
operation's contract says exactly how the view changes, which calls are
refused, and which tokens move. `laws.rs` in each part proves what holds
across calls; `src/registry/history.rs` models whole histories of registry
calls, over which the rewards paid out are proved never to exceed the
rewards funded.

`app/` holds the two ledger contracts around the library: authorization,
storage, the ledger clock, token transfers, the call from escalation to
registry, and events.
