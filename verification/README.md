# micro_insurance_pool

A decentralized micro-insurance pool for the Stellar ledger: members pay
premiums into a shared pool, file claims, vote on each other's claims within
a voting window, and approved claims are paid out of the pool.

## Layout

- `src/` — the pool's rules, verified with Verus.
  - `types.rs`: claims, claim statuses, error codes, and the token transfers
    that operations ask the host to carry out.
  - `model.rs`: the mathematical model of the pool's state (`PoolView`), its
    invariant (`PoolView::consistent`), and the meaning of each operation as
    an error or a next state.
  - `pool.rs`: `MicroInsurancePool`, the executable pool, whose operations
    are proved to follow the model and to keep the invariant.
  - `laws.rs`: properties that relate operations (a pool is initialized once,
    a member votes at most once per claim, a decided claim is final, the
    reputation and balance rules).
  - `lemmas.rs`: facts about the counts and sums the invariant uses.
- `app/` — the Soroban contract: authentication, ledger time, persistent
  storage, token transfers and events around the library.
- `tests/` — scenarios on a test ledger with a Stellar asset contract, and the
  rules on concrete values.

## Governance rules

| Rule | Value |
|---|---|
| Voting quorum | at least 50% of the members other than the claimant vote |
| Majority threshold | more approving than rejecting votes pays the claim |
| Voting deadline | set at initialization; votes until the deadline, execution after it |
| Self-voting | not allowed |
| Reputation | starts at 100; +5 per approved claim, −10 per rejected claim |
