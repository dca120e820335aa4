# Studio Commons

Community-owned creative infrastructure whose money and merit rules are
stated as contracts and proved with Verus.

## Layout

- `src/` — the verified library.
  - `economics.rs` — the fiscal engine: costs first, debts before profit,
    runway-gated waterfall, exact conservation, earned expansion.
  - `network.rs` — the hub network: sponsor ranking, firewalled seeding,
    lineage, network-wide conservation.
  - `cci.rs` — the Creative Contribution Index: a hash-chained ledger of
    contributions and the peer-review rules that decide which reviews count.
  - `governance.rs`, `membership.rs`, `payments.rs`, `production.rs`,
    `treasury.rs`, `analytics.rs`, `compliance.rs`, `utils.rs` — the other
    community systems.
- `tests/` — behavioural and adversarial tests run against the compiled library.
- `app/` — the program: start-up, logging, and the computations on doubles
  (merit points, medians, forecasts, risk and carbon figures) that use the
  library's records.

Doubles that the library must keep (hours, impact scores, standards scores,
carbon figures, vote weights) are stored as their IEEE-754 bit patterns; the
range checks on them are integer comparisons of those patterns.
