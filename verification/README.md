# explorer_contract

A verified model of an on-chain explorer: a registry of contract metadata
with an ABI version history, an admin with pause control, and a ring buffer
of decoded events with paged reads.

- `src/types.rs` — errors, addresses, metadata and event types, with views.
- `src/table.rs` — a keyed table with distinct keys, viewed as a finite map.
- `src/model.rs` — the storage model and the effect of each operation.
- `src/contract.rs` — `ExplorerContract`: storage and operations, each
  proved to follow the model; failing operations leave storage unchanged.
- `src/events.rs` — the diagnostic events an operation publishes.
- `src/laws.rs` — proved properties across operations (ring-buffer window,
  paging, version history, admin transfer, pause).
- `app/lib.rs` — the Soroban contract: authentication, host storage, ledger
  sequence and event publication around the library.
