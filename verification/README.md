# erpnext_domain

The domain logic of an ERP system as a verified Verus library: general-ledger
postings and balance sheets, stock ledgers with FIFO and moving-average
valuation, stock transfers, bills of materials and MRP shortages, payroll and
progressive tax, geofenced attendance, loan amortization, pricing rules and
tax templates, CRM pipelines and lead scores, learning progress, and support
SLAs with email intake.

Layout:

- `src/` — the library.  Every function carries a `requires`/`ensures`
  contract proved by Verus.  Decimal arithmetic, record ids, UUIDs, dates,
  base64 and the clock are reached through small trusted wrappers around
  `rust_decimal`, `surrealdb`, `uuid`, `chrono` and `base64`; their contracts
  are stated in their doc comments.  The laws that relate several functions
  stand as public proof functions (`lemma_*`).
- `tests/` — tests that run the compiled library with the real outside crates.
- `app/` — ordinary Rust around the library: SurrealDB queries, Tokio tasks,
  the escalation webhook and SLA monitor, attachment storage, Rhai salary
  formulas and the floating-point logistic lead score.  It converts between
  the outside crates' types and the library's own.

Maps: the map from account ids to balances (`DecimalMap`) and the stock
registry keep their entries in a `Vec`, one entry per key, where a
`HashMap` keyed by strings would be the usual choice.  vstd's specification
of `HashMap` does not let lookups by `String` keys be proved, so each type
keeps the invariant a map would give it: no key occurs twice
(`DecimalMap` by a type invariant, the registry by `keys_unique`, which
every operation preserves).
