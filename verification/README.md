# simple-transaction

A payments engine: deposits, withdrawals, disputes, resolutions and chargebacks applied to
per-client accounts, with balances in `u64` minor units (amount x 10,000).

- `src/` is the library, verified with Verus:
  - `account.rs`: one account, its abstract state (`AccountView`) and the exact result of
    each operation (`deposit_result`, `withdrawal_result`, ...).
  - `account_store.rs`: all 65,536 client slots, split into shards; `step` and `run` give
    the effect of one transaction and of a batch, with the refusal counts.
  - `csv.rs`: the input row (`type, client, tx, amount`) and its conversion to a transaction.
  - `tx_map.rs`: the per-account transaction table, an `FxHashMap` from `rustc_hash`.
  - `decimal.rs`: decimal rendering of counts for error messages.
  - `laws.rs`: properties proved for every input.
- The store holds no locks: applying transactions takes `&mut self` and a `Vec`. A caller
  that shares one store between threads wraps it in a lock of its own.
- Transaction ids are unique across all clients: a deposit or withdrawal reusing the id of
  a recorded transaction is rejected. A locked (charged-back) account is frozen and refuses
  every further operation. Held funds never exceed the total and always equal the sum of
  the amounts under open dispute.
- `app/main.rs` reads the CSV file, converts amounts between units and minor units (floating
  point), logs with `tracing`, and writes the accounts as CSV.
