# phoenix_dex

The decision logic of the Phoenix DEX Soroban contracts, written in Verus and
proved against its contracts.

- `src/` is the verified library. Each contract (`pool_stable`, `stake`,
  `stake_rewards`, `vesting`, `trader`, `sample`) has a module that takes the
  values the contract reads from storage, token balances and the ledger, and
  returns what it decides: amounts to transfer, the new stored state, or the
  error to raise. Shared pieces are `decimal` (18-digit fixed point, exact
  wide products), `curve` (reward and vesting curves), `wide` (256-bit host
  integers, used by the stable-swap invariant), `address` and `utils` (the
  two-step admin hand-over). The `laws` modules hold the properties that span
  several functions.
- `tests/` runs the library on the scenarios of the contracts' test suites.
- `app/` is the Soroban shell around the library: storage, token transfers,
  authorization and events.
