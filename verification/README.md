# yieldladder

The YieldLadder savings protocol on Soroban, with its contract logic verified
in Verus.

- `src/` — the verified library. Each contract (`governance`,
  `guardian_multisig`, `position_token`, `strategy_vault`, `vault_l3`,
  `vault_router`) is a state type holding its storage as plain values. An
  operation checks its arguments against the state, updates it, and returns
  what the ledger must do: which address must authorise it, which token
  transfers to make, which other contract to call. Spec functions state each
  operation exactly; proof functions state the laws across operations (the
  timelock, the buffer kept idle by a rebalance, the single holder of a
  receipt, the share accounting of the tier vault, …). `keyed_map` is the
  verified association list the states use, `address` the ledger address as a
  value.
- `tests/` — tests of the library.
- `app/` — the Soroban contracts: they read the storage entries an operation
  needs, call the library, then require the authorisations, make the
  transfers and calls, and write the entries back.
