# rust-tx-ledger

A streaming transaction ledger with ordered routing by client id, verified
with Verus.

Rows of a CSV file (`type,client,tx,amount`) are validated into entries,
routed by client id to partitions, and applied there to per-client accounts:
deposits, withdrawals, disputes, resolves and chargebacks. Rejected rows go to
a dead-letter file (`line,byte,reason,raw`); the final accounts are written to
stdout (`client,available,held,total,locked`), amounts shown with four decimal
places, truncated toward zero.

## Layout

- `src/` — the verified library.
  - `ledger/decimal.rs` — decimal arithmetic through `rust_decimal`, on plain
    parts (mantissa, scale), with the contracts the rest relies on.
  - `ledger/amount.rs` — `Amount`: exact arithmetic, comparison, parsing and
    the four-decimal display.
  - `ledger/entry.rs` — transaction types, raw rows and their validation.
  - `ledger/account.rs` — the account rules, stated as step relations, and
    the laws that follow from them.
  - `ledger/partition.rs` — applying routed entries to a partition's accounts.
  - `ledger/broker.rs`, `ledger/provider.rs`, `ledger/message.rs`,
    `ledger/cursor.rs` — routing, per-row decisions and the messages.
  - `ledger/partition_writer.rs`, `ledger/dlq_writer.rs` — the output rows.
  - `cli.rs` — run settings; `text.rs` — how numbers are written.
- `app/` — the program: command line, CSV reading and writing, and the tokio
  tasks and channels of the pipeline.
- `tests/` — tests of the library.

## Usage

```bash
rust-tx-ledger transactions.csv > accounts.csv
# produces dlq.csv with any invalid rows
```
