# accounts_solution

A payments engine: it reads deposits, withdrawals, disputes, resolves and
chargebacks, keeps client accounts, and prints their balances.

- `src/` is the verified library (Verus):
  - `amount.rs`: decimal amounts (`mantissa / 10^scale`) and their arithmetic,
    done by `rust_decimal`;
  - `account.rs`: a client account and its balance changes, and the output row;
  - `account_map.rs`: the accounts, kept in an `iddqd::IdOrdMap`;
  - `transaction.rs`: stored deposits and their dispute state;
  - `operation.rs`: input rows checked into operations, and `Operation::process`;
  - `ledger.rs`: the engine state, `Ledger::apply`, and the laws it keeps.
- `app/` is the command-line program: it reads the CSV file, applies each
  operation, and writes the accounts as CSV.
- `tests/` runs the library on concrete values.

```
accounts-solution transactions.csv
```
