# time-lock-vault

A time-lock vault for Soroban tokens, verified with Verus. Depositors lock
tokens until a ledger timestamp or ledger sequence number; they may cancel
early against a penalty; an admin can release deposits in an emergency,
pause new deposits, freeze depositors or tokens, and hand over or renounce
the admin role.

## Layout

- `src/` — the verified library.
  - `model.rs`: the abstract state (`VaultModel`, `EnvView`) and its invariant.
  - `rules.rs`: for every entry point, when it is refused and with which
    error, and the state it leaves behind when it succeeds.
  - `contract.rs`: the entry points (`TimeLockVault`), each proved against
    `rules.rs`.
  - `storage.rs`: the persistent storage and its helpers, proved against
    `model.rs`.
  - `env.rs`: the host environment the contract runs in: ledger clock,
    storage, the record of authorizations, token transfers and events, and
    the journal of the order in which the vault asked for them and wrote
    storage.
  - `laws.rs`: properties that span several calls or hold of every state.
  - `errors.rs`, `types.rs`, `events.rs`, `constants.rs`.
- `tests/` — tests of the library on concrete values.
- `app/` — the Soroban contract: XDR-encodable copies of the public types,
  the address book that maps Soroban addresses to the library's handles,
  the log of accepted calls kept in persistent storage (the library's state
  is rebuilt from it on each invocation), and the code that carries out on
  the host, in journal order, what a call recorded: its authorization
  request always; its storage write, token transfers and events when it is
  accepted.
