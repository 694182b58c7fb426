# stealth_protocol

The verified core of a stealth-payment protocol on Soroban: a constant-product
liquidity pool, a mintable reward token, and a vault that holds deposits for
one-time stealth public keys.

- `src/` — the library, verified with Verus. Each contract call is a
  transition on the contract's state (`PoolState`, `TokenState`,
  `StealthState`), specified by a spec function on the state's model; the
  `*_laws.rs` files prove what holds across calls (supply equals the sum of
  balances, the pool's product of reserves never drops on a swap, a stealth
  key cannot be withdrawn from twice, ...).
- `tests/` — tests of the library on concrete values.
- `app/` — the Soroban contracts: authorisation, storage, token transfers,
  signature checks and events around the library's transitions.
