# payments_engine

A streaming payments engine: per-client accounts fed one parsed transaction at
a time (deposits, withdrawals, disputes, resolutions, chargebacks), with every
balance change proved against a mathematical ledger model.

Layout:

- `src/model.rs` — identifiers, transaction kinds, and `Amount`, a four-place
  fixed-point decimal; converting a decimal rounds it to four places through
  `rust_decimal`.
- `src/ledger.rs` — the model: a `Ledger` of balances and retained deposits,
  and `step`, what one transaction does to it and answers.
- `src/engine.rs` — `PaymentsEngine`, the executable engine over `HashMap`s,
  whose `process_transaction` is proved to follow `step`.
- `src/laws.rs` — properties across transactions: frozen locked accounts,
  client isolation, dispute/resolve round trip, held funds equal to the sum of
  disputed deposits, and more.
- `src/account.rs`, `src/record.rs`, `src/error.rs` — accounts, input and
  output rows, per-row errors.
- `app/` — the command-line program: CSV reading and writing with `csv` and
  `serde`, feeding the library row by row.
- `tests/` — scenario tests of the library.
