# callora_vault

Verified decision logic of the Callora vault contract, a prepaid USDC balance on
Soroban that its owner (and depositors the owner approves) tops up, that callers
deduct from per request, and that the owner withdraws from.

- `src/address.rs`: addresses as strkey bytes, compared and copied by verified loops.
- `src/types.rs`: vault metadata, deduct items, errors, events and effects, with their abstract values.
- `src/model.rs`: the abstract storage (`VaultModel`) and every call as a transition on it.
- `src/vault.rs`: `CalloraVault`, the storage the contract keeps, whose methods implement
  the calls and are proved to follow the transitions of `model.rs`.
- `src/laws.rs`: properties across calls (batch deduct equals single deducts, deposit then
  withdraw restores the storage, limits, roles, revocation, init once).
- `app/lib.rs`: the Soroban contract: it authenticates callers, loads and stores the
  instance storage, and performs the transfers, metadata writes and events that the
  library returns.
