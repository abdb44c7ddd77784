# lms

Verified core of a Soroban learning-management contract.

- `src/host.rs` — the contract's host as the library sees it: persistent and
  instance storage as maps from byte strings to byte strings, whether a
  contract is running, which addresses may authorize the call, the ledger
  clock, and the trusted wrappers over `soroban_sdk` that reach them.
- `src/storage.rs` — storage keys and their one-to-one byte encoding.
- `src/access/` — roles, one-time initialization, registration and the
  role checks, each specified as a step on the stores.
- `src/assessment/` — scoring rules, value encodings, assessment
  configuration, submissions and result lookup.
- `src/laws.rs`, `src/access/laws.rs`, `src/assessment/laws.rs` — proved
  properties across operations (refusals change nothing, initialization
  happens once, registrations are permanent, where privileges come from,
  submissions read back, attempt counters never go down, every operation
  keeps the stores well formed).
- `src/runs.rs` — the same over whole runs of operations: roles stay,
  initialization succeeds at most once and is the only way to become
  initialized, results survive unrelated operations, and a run of
  submissions fills attempts `1..=k` in order.
- `app/` — the Soroban-facing layer: contract types with host encodings,
  and address conversion around the library.

Users are named by the bytes of their address's text form.
