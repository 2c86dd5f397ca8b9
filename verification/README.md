# basic_payment_engine

A payments engine that reads transactions (deposit, withdrawal, dispute, resolve,
chargeback) from a CSV file, applies them to per-client accounts, and writes each
account's available, held and total funds and its locked flag as CSV.

- `src/` is the library, verified with Verus. Amounts are counted in ten-thousandths
  (every accepted amount has at most four decimal places), so the balances are exact
  integers. `engine.rs` states the engine as a state machine (`verdict` says which rule
  decides a transaction, `step` what it does to the ledger); `laws.rs` and `accounting.rs`
  prove what every transaction and every run keeps (frozen accounts never change, a
  deposit's lifecycle only moves forward, held funds are exactly the disputed
  deposits, a total is the deposits not charged back less the withdrawals).
  `csv_io.rs` turns rows into transactions and builds the report;
  `decimal.rs` reads and writes amounts through `rust_decimal`.
- `app/main.rs` is the program: argument handling, the CSV reader and writer, and
  the lines on stderr for ignored rows.
- `tests/` exercises the library on concrete scenarios.

Usage: `basic_payment_engine transactions.csv > accounts.csv`
