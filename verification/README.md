# staking

The rules of a staking pool on a smart-contract ledger, verified with Verus.

A staker deposits tokens of one configured token, receives one share for each,
and redeems shares for tokens later. An administrator can pause and unpause the
pool.

- `src/contract.rs` holds the entry points, `src/env.rs` the environment they
  work on and the requests they make of the host.
- `src/model.rs` states what each entry point answers, stores and requests.
- `src/laws.rs` and `src/history.rs` prove what follows for single calls, for
  pairs of calls and for whole histories of the pool.
- `app/` binds the library to the ledger: it reads storage, calls the library
  and carries out the requests.
- `tests/` runs the library on concrete values.
